//! One turn of a connection's background loop: from what a poll of the
//! event loop yielded to what is handed to the callbacks.

use vstd::prelude::*;
use vstd::utf8::{decode_utf8, valid_utf8};

verus! {

/// What one poll of the event loop yielded.
#[derive(Debug, PartialEq, Eq)]
pub enum PollEvent {
    /// The broker published `payload` on `topic`.
    Publish { topic: String, payload: Vec<u8> },
    /// Any other event of the protocol.
    Other,
    /// The poll failed.
    Failed,
}

/// Whether a background loop still polls.
#[derive(Clone, Copy, Debug, PartialEq, Eq, Structural)]
pub enum LoopState {
    Running,
    /// A poll has failed. The loop has ended for good.
    Stopped,
}

/// A publish whose payload is text.
#[derive(Debug, PartialEq, Eq)]
pub struct Message {
    pub topic: String,
    pub payload: String,
}

/// What the loop does with an event.
#[derive(Debug, PartialEq, Eq)]
pub enum Dispatch {
    /// Hand the message to every callback, then poll again.
    Deliver(Message),
    /// Nothing to hand out. Poll again.
    Skip,
    /// Leave the loop.
    Stop,
}

/// The state of a loop in `state` after `event`: a failed poll stops it, and
/// a stopped loop stays stopped.
pub open spec fn next_state(state: LoopState, event: PollEvent) -> LoopState {
    if state == LoopState::Stopped || event is Failed {
        LoopState::Stopped
    } else {
        LoopState::Running
    }
}

/// Topic and text that a loop in `state` hands to its callbacks on `event`:
/// those of a publish with a payload in UTF-8 while the loop runs, and
/// nothing otherwise.
pub open spec fn delivered(state: LoopState, event: PollEvent) -> Option<(Seq<char>, Seq<char>)> {
    match event {
        PollEvent::Publish { topic, payload } => if state == LoopState::Running && valid_utf8(
            payload@,
        ) {
            Some((topic@, decode_utf8(payload@)))
        } else {
            None
        },
        _ => None,
    }
}

/// `dispatch` is what a loop in `state` does with `event`.
pub open spec fn dispatch_matches(state: LoopState, event: PollEvent, dispatch: Dispatch) -> bool {
    match dispatch {
        Dispatch::Deliver(message) => delivered(state, event) == Some(
            (message.topic@, message.payload@),
        ),
        Dispatch::Skip => delivered(state, event) is None && next_state(state, event)
            == LoopState::Running,
        Dispatch::Stop => next_state(state, event) == LoopState::Stopped,
    }
}

/// The state of a loop that started in `state` and has seen `events`.
pub open spec fn state_after(state: LoopState, events: Seq<PollEvent>) -> LoopState
    decreases events.len(),
{
    if events.len() == 0 {
        state
    } else {
        next_state(state_after(state, events.drop_last()), events.last())
    }
}

/// `String::from_utf8`: the text that `bytes` encode, if they are valid
/// UTF-8, and nothing if they are not.
#[verifier::external_body]
fn text_from_utf8(bytes: Vec<u8>) -> (text: Option<String>)
    ensures
        match text {
            Some(s) => valid_utf8(bytes@) && s@ == decode_utf8(bytes@),
            None => !valid_utf8(bytes@),
        },
{
    String::from_utf8(bytes).ok()
}

/// Takes a loop in `state` through `event` and says what to do with it.
pub fn on_poll(state: &mut LoopState, event: PollEvent) -> (dispatch: Dispatch)
    ensures
        *final(state) == next_state(*old(state), event),
        dispatch_matches(*old(state), event, dispatch),
{
    match *state {
        LoopState::Stopped => Dispatch::Stop,
        LoopState::Running => match event {
            PollEvent::Publish { topic, payload } => match text_from_utf8(payload) {
                Some(text) => Dispatch::Deliver(Message { topic, payload: text }),
                None => Dispatch::Skip,
            },
            PollEvent::Other => Dispatch::Skip,
            PollEvent::Failed => {
                *state = LoopState::Stopped;
                Dispatch::Stop
            },
        },
    }
}

/// A stopped loop stays stopped and hands out nothing, whatever it is given.
pub proof fn lemma_stopped_is_final(event: PollEvent)
    ensures
        next_state(LoopState::Stopped, event) == LoopState::Stopped,
        delivered(LoopState::Stopped, event) is None,
{
}

/// Once a poll has failed, the loop is stopped after every further event.
pub proof fn lemma_failure_stops_the_loop(state: LoopState, events: Seq<PollEvent>, i: int)
    requires
        0 <= i < events.len(),
        events[i] is Failed,
    ensures
        state_after(state, events) == LoopState::Stopped,
    decreases events.len(),
{
    if i < events.len() - 1 {
        lemma_failure_stops_the_loop(state, events.drop_last(), i);
    }
}

/// After a failed poll nothing is handed to the callbacks any more: of the
/// events `events`, none that follows a failed one is delivered.
pub proof fn lemma_nothing_delivered_after_failure(
    state: LoopState,
    events: Seq<PollEvent>,
    i: int,
    j: int,
)
    requires
        0 <= i < j < events.len(),
        events[i] is Failed,
    ensures
        delivered(state_after(state, events.take(j)), events[j]) is None,
{
    lemma_failure_stops_the_loop(state, events.take(j), i);
}

} // verus!

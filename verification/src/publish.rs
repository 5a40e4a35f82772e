//! The publish path of a connection: one try at at-least-once delivery and,
//! if that fails, one at at-most-once.

use vstd::prelude::*;

verus! {

/// Delivery guarantee of a publish or a subscription.
#[derive(Clone, Copy, Debug, PartialEq, Eq, Structural)]
pub enum QoS {
    AtMostOnce,
    AtLeastOnce,
    ExactlyOnce,
}

/// Whether the broker is to keep a published message for subscribers to
/// come. It is not.
pub const RETAIN: bool = false;

/// Which try of a publish is under way.
#[derive(Clone, Copy, Debug, PartialEq, Eq, Structural)]
pub enum Attempt {
    /// The first try, at at-least-once.
    First,
    /// The second and last try, at at-most-once.
    Fallback,
}

impl Attempt {
    /// The delivery guarantee that this try asks for.
    pub open spec fn spec_qos(self) -> QoS {
        match self {
            Attempt::First => QoS::AtLeastOnce,
            Attempt::Fallback => QoS::AtMostOnce,
        }
    }

    /// The delivery guarantee that this try asks for.
    #[verifier::when_used_as_spec(spec_qos)]
    pub fn qos(self) -> (q: QoS)
        ensures
            q == self.spec_qos(),
    {
        match self {
            Attempt::First => QoS::AtLeastOnce,
            Attempt::Fallback => QoS::AtMostOnce,
        }
    }
}

/// What a publish does once a try has come back.
#[derive(Debug, PartialEq, Eq)]
pub enum Step<E> {
    /// Send the same payload again, as the given try.
    Retry(Attempt),
    /// The publish is over, with this result.
    Done(Result<(), E>),
}

/// The step after `attempt` came back with `outcome`: success ends the
/// publish, a failed first try leads to the fallback, and a failed fallback
/// ends the publish with its error.
pub open spec fn spec_after_attempt<E>(attempt: Attempt, outcome: Result<(), E>) -> Step<E> {
    if outcome is Err && attempt == Attempt::First {
        Step::Retry(Attempt::Fallback)
    } else {
        Step::Done(outcome)
    }
}

/// What a whole publish returns when its first try comes back with `first`
/// and its fallback, if it is made, with `second`.
pub open spec fn publish_result<E>(first: Result<(), E>, second: Result<(), E>) -> Result<(), E> {
    if first is Ok {
        first
    } else {
        second
    }
}

/// The try that every publish starts with.
pub fn first_attempt() -> (attempt: Attempt)
    ensures
        attempt == Attempt::First,
{
    Attempt::First
}

/// Decides what follows the try `attempt` that came back with `outcome`.
pub fn after_attempt<E>(attempt: Attempt, outcome: Result<(), E>) -> (step: Step<E>)
    ensures
        step == spec_after_attempt(attempt, outcome),
{
    match outcome {
        Ok(done) => Step::Done(Ok(done)),
        Err(e) => match attempt {
            Attempt::First => Step::Retry(Attempt::Fallback),
            Attempt::Fallback => Step::Done(Err(e)),
        },
    }
}

/// The last step of a publish whose first try comes back with `first` and
/// whose fallback, if it is made, with `second`.
pub open spec fn last_step<E>(first: Result<(), E>, second: Result<(), E>) -> Step<E> {
    match spec_after_attempt(Attempt::First, first) {
        Step::Retry(next) => spec_after_attempt(next, second),
        Step::Done(result) => Step::Done(result),
    }
}

/// A publish makes at most two tries, the first at at-least-once and the
/// second at at-most-once. It returns success as soon as one succeeds, and
/// else the error of the second.
pub proof fn lemma_publish_falls_back_once<E>(first: Result<(), E>, second: Result<(), E>)
    ensures
        Attempt::First.spec_qos() == QoS::AtLeastOnce,
        spec_after_attempt(Attempt::First, first) is Retry <==> first is Err,
        spec_after_attempt(Attempt::First, first) is Retry ==> spec_after_attempt(
            Attempt::First,
            first,
        )->Retry_0.spec_qos() == QoS::AtMostOnce,
        last_step(first, second) == Step::Done(publish_result(first, second)),
        first is Ok || second is Ok ==> publish_result(first, second) is Ok,
        first is Err && second is Err ==> publish_result(first, second) == second,
{
}

} // verus!

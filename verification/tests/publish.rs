use mqtt_link::publish::{after_attempt, first_attempt, Attempt, QoS, Step, RETAIN};

/// Runs a publish against a transport that answers the tries with
/// `outcomes`, in order. Returns the guarantee asked for at each try and
/// the result of the publish.
fn run(outcomes: Vec<Result<(), &'static str>>) -> (Vec<QoS>, Result<(), &'static str>) {
    let mut asked = Vec::new();
    let mut attempt = first_attempt();
    let mut answers = outcomes.into_iter();
    loop {
        asked.push(attempt.qos());
        let outcome = answers.next().expect("the publish asked for more tries than were answered");
        match after_attempt(attempt, outcome) {
            Step::Retry(next) => attempt = next,
            Step::Done(result) => return (asked, result),
        }
    }
}

#[test]
fn publish_that_succeeds_at_once_makes_one_try() {
    let (asked, result) = run(vec![Ok(())]);
    assert_eq!(asked, vec![QoS::AtLeastOnce]);
    assert_eq!(result, Ok(()));
}

#[test]
fn publish_that_fails_first_and_then_succeeds_returns_success() {
    let (asked, result) = run(vec![Err("first"), Ok(())]);
    assert_eq!(asked, vec![QoS::AtLeastOnce, QoS::AtMostOnce]);
    assert_eq!(result, Ok(()));
}

#[test]
fn publish_that_fails_twice_returns_the_second_error() {
    let (asked, result) = run(vec![Err("first"), Err("second")]);
    assert_eq!(asked, vec![QoS::AtLeastOnce, QoS::AtMostOnce]);
    assert_eq!(result, Err("second"));
}

#[test]
fn publish_never_makes_a_third_try() {
    let (asked, _) = run(vec![Err("first"), Err("second"), Ok(())]);
    assert_eq!(asked.len(), 2);
}

#[test]
fn steps_are_as_stated() {
    assert_eq!(first_attempt(), Attempt::First);
    assert_eq!(after_attempt::<u8>(Attempt::First, Ok(())), Step::Done(Ok(())));
    assert_eq!(after_attempt(Attempt::First, Err(7u8)), Step::Retry(Attempt::Fallback));
    assert_eq!(after_attempt::<u8>(Attempt::Fallback, Ok(())), Step::Done(Ok(())));
    assert_eq!(after_attempt(Attempt::Fallback, Err(9u8)), Step::Done(Err(9u8)));
}

#[test]
fn attempts_ask_for_their_guarantee() {
    assert_eq!(Attempt::First.qos(), QoS::AtLeastOnce);
    assert_eq!(Attempt::Fallback.qos(), QoS::AtMostOnce);
}

#[test]
fn published_messages_are_not_retained() {
    assert!(!RETAIN);
}

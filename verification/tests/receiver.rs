use mqtt_link::dispatch::PollEvent;
use mqtt_link::publish::QoS;
use mqtt_link::receiver::{mqtt_receiver_with_config, Fanout, Job, MQTTConfig, Receiver};
use std::cell::Cell;
use std::rc::Rc;

fn config() -> MQTTConfig {
    MQTTConfig { host: "127.0.0.1:1883".to_string(), username: String::new(), password: String::new() }
}

fn receiver<F>(topic: &str) -> Receiver<F> {
    mqtt_receiver_with_config(&config(), topic).0
}

fn publish(payload: &[u8]) -> PollEvent {
    PollEvent::Publish { topic: "state".to_string(), payload: payload.to_vec() }
}

#[test]
fn receiver_is_opened_as_the_config_says() {
    let cfg = MQTTConfig {
        host: "broker:2883".to_string(),
        username: "user".to_string(),
        password: "pass".to_string(),
    };
    let (receiver, event_loop) = mqtt_receiver_with_config::<u8>(&cfg, "test/1");
    assert_eq!(receiver.subscription(), ("test/1", QoS::ExactlyOnce));
    assert_eq!(receiver.callback_count(), 0);
    assert!(receiver.ready());
    assert_eq!(event_loop.mqtt_options.client_id(), "dt_command_client");
    assert_eq!(event_loop.mqtt_options.broker_address(), ("broker".to_string(), 2883));
    assert_eq!(
        event_loop.mqtt_options.credentials(),
        Some(("user".to_string(), "pass".to_string()))
    );
}

#[test]
fn callbacks_keep_their_order() {
    let mut receiver = receiver::<&str>("t");
    receiver.add_callback("one");
    receiver.add_callback("two");
    receiver.add_callback("one");
    assert_eq!(receiver.callback_count(), 3);
    assert_eq!(receiver.callback(0), Some(&"one"));
    assert_eq!(receiver.callback(1), Some(&"two"));
    assert_eq!(receiver.callback(2), Some(&"one"));
    assert_eq!(receiver.callback(3), None);
    assert_eq!(receiver.subscription().0, "t");
}

#[test]
fn two_callbacks_are_each_invoked_once_and_the_loop_waits_for_both() {
    let first = Rc::new(Cell::new(0u32));
    let second = Rc::new(Cell::new(0u32));
    let mut receiver: Receiver<Box<dyn Fn(&str, &str)>> = receiver("state");
    let counter = first.clone();
    receiver.add_callback(Box::new(move |topic, payload| {
        assert_eq!(topic, "state");
        assert_eq!(payload, "{\"on\":true}");
        counter.set(counter.get() + 1);
    }));
    let counter = second.clone();
    receiver.add_callback(Box::new(move |topic, payload| {
        assert_eq!(topic, "state");
        assert_eq!(payload, "{\"on\":true}");
        counter.set(counter.get() + 1);
    }));

    let jobs = match receiver.on_poll(publish(b"{\"on\":true}")) {
        Fanout::Run(jobs) => jobs,
        other => panic!("expected jobs, got {:?}", other),
    };
    assert_eq!(
        jobs,
        vec![
            Job { callback: 0, topic: "state".to_string(), payload: "{\"on\":true}".to_string() },
            Job { callback: 1, topic: "state".to_string(), payload: "{\"on\":true}".to_string() },
        ]
    );
    assert!(!receiver.ready());

    let mut jobs = jobs.into_iter();
    let job = jobs.next().unwrap();
    receiver.callback(job.callback).unwrap()(&job.topic, &job.payload);
    receiver.job_done();
    assert!(!receiver.ready());

    let job = jobs.next().unwrap();
    receiver.callback(job.callback).unwrap()(&job.topic, &job.payload);
    receiver.job_done();
    assert!(receiver.ready());

    assert_eq!(first.get(), 1);
    assert_eq!(second.get(), 1);
}

#[test]
fn message_without_callbacks_leaves_the_loop_ready() {
    let mut receiver = receiver::<u8>("t");
    assert_eq!(receiver.on_poll(publish(b"x")), Fanout::Run(Vec::new()));
    assert!(receiver.ready());
}

#[test]
fn handle_message_makes_one_job_for_each_callback() {
    let mut receiver = receiver::<char>("t");
    for c in ['a', 'b', 'c', 'd'] {
        receiver.add_callback(c);
    }
    let jobs = receiver.handle_message("topic", "payload");
    assert_eq!(jobs.len(), 4);
    for (i, job) in jobs.iter().enumerate() {
        assert_eq!(job.callback, i);
        assert_eq!(job.topic, "topic");
        assert_eq!(job.payload, "payload");
    }
    for left in (0..4).rev() {
        assert!(!receiver.ready());
        assert_eq!(receiver.jobs_out(), left + 1);
        receiver.job_done();
        assert_eq!(receiver.jobs_out(), left);
        assert_eq!(receiver.ready(), left == 0);
    }
}

#[test]
fn job_done_without_jobs_changes_nothing() {
    let mut receiver = receiver::<u8>("t");
    receiver.job_done();
    assert!(receiver.ready());
}

#[test]
fn payload_that_is_not_text_and_other_events_are_skipped() {
    let mut receiver = receiver::<u8>("t");
    receiver.add_callback(1);
    assert_eq!(receiver.on_poll(publish(&[0xff, 0xfe])), Fanout::Skip);
    assert!(receiver.ready());
    assert_eq!(receiver.on_poll(PollEvent::Other), Fanout::Skip);
    assert!(receiver.ready());
}

#[test]
fn receiver_is_inert_after_a_failed_poll() {
    let mut receiver = receiver::<u8>("t");
    receiver.add_callback(1);
    assert_eq!(receiver.on_poll(PollEvent::Failed), Fanout::Stop);
    assert!(!receiver.ready());
    assert_eq!(receiver.on_poll(publish(b"x")), Fanout::Stop);
    assert_eq!(receiver.on_poll(PollEvent::Other), Fanout::Stop);
    assert!(!receiver.ready());
}

#[test]
fn callback_added_during_a_delivery_waits_for_the_next_message() {
    let mut receiver = receiver::<u8>("t");
    receiver.add_callback(1);
    let jobs = receiver.handle_message("t", "first");
    assert_eq!(jobs.len(), 1);
    receiver.add_callback(2);
    receiver.job_done();
    assert!(receiver.ready());
    assert_eq!(receiver.handle_message("t", "second").len(), 2);
}

#[test]
fn jobs_carry_the_topic_of_the_message_not_that_of_the_receiver() {
    let mut receiver = receiver::<u8>("subscribed");
    receiver.add_callback(1);
    let event = PollEvent::Publish { topic: "subscribed/sub".to_string(), payload: b"x".to_vec() };
    assert_eq!(
        receiver.on_poll(event),
        Fanout::Run(vec![Job {
            callback: 0,
            topic: "subscribed/sub".to_string(),
            payload: "x".to_string()
        }])
    );
}

#[test]
fn stopped_receiver_has_no_jobs_out_and_answers_stop() {
    let mut receiver = receiver::<u8>("t");
    assert_eq!(receiver.on_poll(PollEvent::Failed), Fanout::Stop);
    assert_eq!(receiver.jobs_out(), 0);
    assert!(!receiver.ready());
    assert_eq!(receiver.on_poll(PollEvent::Other), Fanout::Stop);
}

//! A receiver: the endpoint of one topic, with a connection and a list of
//! callbacks of its own. Each message is handed to all callbacks at once,
//! and the next is not looked at before all of them have returned.

use crate::connect::{
    mqtt_connect, options_of_loop, spec_default_client_id, spec_transport_options,
};
use crate::dispatch::{delivered, next_state, on_poll, Dispatch, LoopState, PollEvent};
use crate::publish::QoS;
use rumqttc::{AsyncClient, EventLoop};
use vstd::prelude::*;

verus! {

/// Where and as whom a receiver connects.
#[derive(Clone, Debug, PartialEq, Eq)]
pub struct MQTTConfig {
    pub host: String,
    pub username: String,
    pub password: String,
}

/// One callback's share of a message: which callback, and its own copy of
/// the topic and the payload.
#[derive(Debug, PartialEq, Eq)]
pub struct Job {
    /// The position of the callback among the receiver's callbacks.
    pub callback: usize,
    pub topic: String,
    pub payload: String,
}

/// What a receiver's loop does with an event.
#[derive(Debug, PartialEq, Eq)]
pub enum Fanout {
    /// Run these jobs side by side and wait for all of them, then poll again.
    Run(Vec<Job>),
    /// Nothing to hand out. Poll again.
    Skip,
    /// Leave the loop.
    Stop,
}

/// `jobs` hands `topic` and `payload` to each of `callbacks` callbacks
/// exactly once, in their order.
pub open spec fn one_job_each(
    jobs: Seq<Job>,
    callbacks: nat,
    topic: Seq<char>,
    payload: Seq<char>,
) -> bool {
    &&& jobs.len() == callbacks
    &&& forall|i: int|
        0 <= i < jobs.len() ==> {
            &&& (#[trigger] jobs[i]).callback == i
            &&& jobs[i].topic@ == topic
            &&& jobs[i].payload@ == payload
        }
}

/// How many jobs are out after `done` of `jobs` have returned.
pub open spec fn outstanding_after(jobs: nat, done: nat) -> nat {
    if done <= jobs {
        (jobs - done) as nat
    } else {
        0
    }
}

/// `fanout` is what a receiver with `callbacks` callbacks, its loop in
/// `state`, does with `event`.
pub open spec fn fanout_matches(
    state: LoopState,
    callbacks: nat,
    event: PollEvent,
    fanout: Fanout,
) -> bool {
    match fanout {
        Fanout::Run(jobs) => delivered(state, event) matches Some(message) && one_job_each(
            jobs@,
            callbacks,
            message.0,
            message.1,
        ),
        Fanout::Skip => delivered(state, event) is None && next_state(state, event)
            == LoopState::Running,
        Fanout::Stop => next_state(state, event) == LoopState::Stopped,
    }
}

/// The receiver of one topic. `F` is the type of its callbacks, which are
/// kept in the order in which they were added.
pub struct Receiver<F> {
    topic: String,
    client: AsyncClient,
    callbacks: Vec<F>,
    state: LoopState,
    outstanding: usize,
}

impl<F> Receiver<F> {
    /// The topic, which never changes.
    pub closed spec fn topic(&self) -> Seq<char> {
        self.topic@
    }

    /// The callbacks, in the order in which they were added.
    pub closed spec fn callbacks(&self) -> Seq<F> {
        self.callbacks@
    }

    /// The state of the loop.
    pub closed spec fn state(&self) -> LoopState {
        self.state
    }

    /// How many jobs of the message in hand have not returned yet.
    pub closed spec fn outstanding(&self) -> nat {
        self.outstanding as nat
    }

    /// The handle through which the receiver subscribes.
    pub closed spec fn spec_client(&self) -> AsyncClient {
        self.client
    }

    /// The loop may look at the next event: it runs, and no job is out.
    pub open spec fn spec_ready(&self) -> bool {
        self.state() == LoopState::Running && self.outstanding() == 0
    }

    /// A receiver for `topic` over the given handle, without callbacks, its
    /// loop running.
    pub fn new(topic: &str, client: AsyncClient) -> (receiver: Self)
        ensures
            receiver.topic() == topic@,
            receiver.callbacks() == Seq::<F>::empty(),
            receiver.state() == LoopState::Running,
            receiver.outstanding() == 0,
            receiver.spec_client() == client,
    {
        Receiver {
            topic: topic.to_owned(),
            client,
            callbacks: Vec::new(),
            state: LoopState::Running,
            outstanding: 0,
        }
    }

    /// The topic to subscribe to, and the delivery guarantee to ask for.
    pub fn subscription(&self) -> (request: (&str, QoS))
        ensures
            request.0@ == self.topic(),
            request.1 == QoS::ExactlyOnce,
    {
        (self.topic.as_str(), QoS::ExactlyOnce)
    }

    /// The handle through which the receiver subscribes.
    pub fn client(&self) -> (client: &AsyncClient)
        ensures
            *client == self.spec_client(),
    {
        &self.client
    }

    /// Adds `callback` after the callbacks that are already there.
    pub fn add_callback(&mut self, callback: F)
        ensures
            final(self).callbacks() == old(self).callbacks().push(callback),
            final(self).topic() == old(self).topic(),
            final(self).state() == old(self).state(),
            final(self).outstanding() == old(self).outstanding(),
            final(self).spec_client() == old(self).spec_client(),
    {
        self.callbacks.push(callback);
    }

    /// The callback at `index`, if there are that many.
    pub fn callback(&self, index: usize) -> (callback: Option<&F>)
        ensures
            callback is Some <==> index < self.callbacks().len(),
            callback matches Some(f) ==> *f == self.callbacks()[index as int],
    {
        if index < self.callbacks.len() {
            Some(&self.callbacks[index])
        } else {
            None
        }
    }

    /// The number of callbacks.
    pub fn callback_count(&self) -> (count: usize)
        ensures
            count == self.callbacks().len(),
    {
        self.callbacks.len()
    }

    /// How many jobs of the message in hand have not returned yet.
    pub fn jobs_out(&self) -> (count: usize)
        ensures
            count == self.outstanding(),
    {
        self.outstanding
    }

    /// Whether the loop may look at the next event.
    #[verifier::when_used_as_spec(spec_ready)]
    pub fn ready(&self) -> (ready: bool)
        ensures
            ready == self.spec_ready(),
    {
        match self.state {
            LoopState::Running => self.outstanding == 0,
            LoopState::Stopped => false,
        }
    }

    /// Splits a message among the callbacks: one job for each, in their
    /// order, each with its own copy of the topic and the payload. All of
    /// them are out until [`Self::job_done`] has been called as often.
    pub fn handle_message(&mut self, topic: &str, payload: &str) -> (jobs: Vec<Job>)
        ensures
            one_job_each(jobs@, old(self).callbacks().len(), topic@, payload@),
            final(self).outstanding() == old(self).callbacks().len(),
            final(self).callbacks() == old(self).callbacks(),
            final(self).topic() == old(self).topic(),
            final(self).state() == old(self).state(),
            final(self).spec_client() == old(self).spec_client(),
    {
        let count: usize = self.callbacks.len();
        let mut jobs: Vec<Job> = Vec::new();
        let mut i: usize = 0;
        while i < count
            invariant
                i <= count,
                one_job_each(jobs@, i as nat, topic@, payload@),
            decreases count - i,
        {
            jobs.push(Job { callback: i, topic: topic.to_owned(), payload: payload.to_owned() });
            i = i + 1;
        }
        self.outstanding = count;
        jobs
    }

    /// Records that one job has returned.
    pub fn job_done(&mut self)
        ensures
            final(self).outstanding() == outstanding_after(old(self).outstanding(), 1),
            final(self).callbacks() == old(self).callbacks(),
            final(self).topic() == old(self).topic(),
            final(self).state() == old(self).state(),
            final(self).spec_client() == old(self).spec_client(),
    {
        if self.outstanding > 0 {
            self.outstanding = self.outstanding - 1;
        }
    }

    /// Takes the loop through `event`. The loop polls only while no job is
    /// out, so the event comes to a receiver whose jobs have all returned.
    pub fn on_poll(&mut self, event: PollEvent) -> (fanout: Fanout)
        requires
            old(self).outstanding() == 0,
        ensures
            final(self).state() == next_state(old(self).state(), event),
            fanout_matches(old(self).state(), old(self).callbacks().len(), event, fanout),
            final(self).outstanding() == if fanout is Run {
                old(self).callbacks().len()
            } else {
                0
            },
            final(self).callbacks() == old(self).callbacks(),
            final(self).topic() == old(self).topic(),
            final(self).spec_client() == old(self).spec_client(),
    {
        match on_poll(&mut self.state, event) {
            Dispatch::Deliver(message) => Fanout::Run(
                self.handle_message(message.topic.as_str(), message.payload.as_str()),
            ),
            Dispatch::Skip => Fanout::Skip,
            Dispatch::Stop => Fanout::Stop,
        }
    }
}

/// Opens the connection of a receiver for `topic` as `mqtt_cfg` says, under
/// the default client identifier. The receiver comes with the event loop
/// that its loop has to poll, which holds the transport's options for the
/// host and the credentials of `mqtt_cfg`.
pub fn mqtt_receiver_with_config<F>(mqtt_cfg: &MQTTConfig, topic: &str) -> (opened: (
    Receiver<F>,
    EventLoop,
))
    ensures
        options_of_loop(opened.1) == spec_transport_options(
            mqtt_cfg.host@,
            mqtt_cfg.username@,
            mqtt_cfg.password@,
            spec_default_client_id(),
        ),
        opened.0.topic() == topic@,
        opened.0.callbacks() == Seq::<F>::empty(),
        opened.0.state() == LoopState::Running,
        opened.0.outstanding() == 0,
{
    let (client, event_loop) = mqtt_connect(
        mqtt_cfg.host.as_str(),
        mqtt_cfg.username.as_str(),
        mqtt_cfg.password.as_str(),
    );
    (Receiver::new(topic, client), event_loop)
}

/// Of the jobs that a message is split into, exactly one is for each
/// callback.
pub proof fn lemma_each_callback_once(
    jobs: Seq<Job>,
    callbacks: nat,
    topic: Seq<char>,
    payload: Seq<char>,
    callback: int,
)
    requires
        one_job_each(jobs, callbacks, topic, payload),
        0 <= callback < callbacks,
    ensures
        jobs[callback].callback == callback,
        jobs[callback].topic@ == topic,
        jobs[callback].payload@ == payload,
        forall|i: int| 0 <= i < jobs.len() && (#[trigger] jobs[i]).callback == callback ==> i == callback,
{
}

/// The loop may not look at the next event before every job of the message
/// in hand has returned: jobs are out while fewer have returned than were
/// started, and none is once as many have.
pub proof fn lemma_barrier(jobs: nat, done: nat)
    ensures
        outstanding_after(jobs, 0) == jobs,
        outstanding_after(outstanding_after(jobs, done), 1) == outstanding_after(jobs, done + 1),
        done < jobs ==> outstanding_after(jobs, done) > 0,
        done >= jobs ==> outstanding_after(jobs, done) == 0,
{
}

} // verus!

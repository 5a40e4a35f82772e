//! A connection: one client handle, the callbacks registered on it and the
//! state of its background loop.

use crate::connect::{mqtt_connect_with_client_id, options_of_loop, spec_transport_options};
use crate::dispatch::{dispatch_matches, next_state, on_poll, Dispatch, LoopState, PollEvent};
use crate::publish::QoS;
use rumqttc::{AsyncClient, EventLoop};
use vstd::prelude::*;

verus! {

/// A connection to the broker. `F` is the type of its callbacks, which are
/// kept in the order in which they were added; one may be added twice.
pub struct MqttConnection<F> {
    client_id: String,
    client: AsyncClient,
    callbacks: Vec<F>,
    state: LoopState,
}

impl<F> MqttConnection<F> {
    /// The callbacks, in the order in which they are invoked.
    pub closed spec fn callbacks(&self) -> Seq<F> {
        self.callbacks@
    }

    /// The state of the background loop.
    pub closed spec fn state(&self) -> LoopState {
        self.state
    }

    /// The handle through which the connection publishes and subscribes.
    pub closed spec fn spec_client(&self) -> AsyncClient {
        self.client
    }

    /// The identifier under which the connection is known to the broker.
    pub closed spec fn spec_client_id(&self) -> Seq<char> {
        self.client_id@
    }

    /// Nothing but the state of the loop sets `self` apart from `other`.
    pub open spec fn same_but_state(&self, other: &Self) -> bool {
        &&& self.callbacks() == other.callbacks()
        &&& self.spec_client() == other.spec_client()
        &&& self.spec_client_id() == other.spec_client_id()
    }

    /// Opens a connection to `host` under `client_id`. It comes with the
    /// event loop that its background loop has to poll, which holds the
    /// transport's options for these arguments; it has no callbacks yet,
    /// and its loop runs.
    pub fn new(host: &str, username: &str, password: &str, client_id: &str) -> (opened: (
        Self,
        EventLoop,
    ))
        ensures
            options_of_loop(opened.1) == spec_transport_options(
                host@,
                username@,
                password@,
                client_id@,
            ),
            opened.0.spec_client_id() == client_id@,
            opened.0.callbacks() == Seq::<F>::empty(),
            opened.0.state() == LoopState::Running,
    {
        let (client, eventloop) = mqtt_connect_with_client_id(host, username, password, client_id);
        (
            MqttConnection {
                client_id: client_id.to_owned(),
                client,
                callbacks: Vec::new(),
                state: LoopState::Running,
            },
            eventloop,
        )
    }

    /// The identifier under which the connection is known to the broker.
    pub fn client_id(&self) -> (id: &str)
        ensures
            id@ == self.spec_client_id(),
    {
        self.client_id.as_str()
    }

    /// The handle through which the connection publishes and subscribes.
    pub fn client(&self) -> (client: &AsyncClient)
        ensures
            *client == self.spec_client(),
    {
        &self.client
    }

    /// The delivery guarantee with which the connections of a pool
    /// subscribe, where the caller chooses no other.
    pub fn subscribe_qos() -> (qos: QoS)
        ensures
            qos == QoS::AtLeastOnce,
    {
        QoS::AtLeastOnce
    }

    /// Adds `callback` after the callbacks that are already there.
    pub fn add_message_callback(&mut self, callback: F)
        ensures
            final(self).callbacks() == old(self).callbacks().push(callback),
            final(self).state() == old(self).state(),
            final(self).spec_client() == old(self).spec_client(),
            final(self).spec_client_id() == old(self).spec_client_id(),
    {
        self.callbacks.push(callback);
    }

    /// The callbacks, in the order in which a delivered message is handed to
    /// them.
    pub fn message_callbacks(&self) -> (callbacks: &Vec<F>)
        ensures
            callbacks@ == self.callbacks(),
    {
        &self.callbacks
    }

    /// Whether the background loop still polls.
    pub fn is_running(&self) -> (running: bool)
        ensures
            running == (self.state() == LoopState::Running),
    {
        match self.state {
            LoopState::Running => true,
            LoopState::Stopped => false,
        }
    }

    /// Takes the background loop through `event`. A delivered message goes
    /// to each of [`Self::message_callbacks`], in order.
    pub fn on_poll(&mut self, event: PollEvent) -> (dispatch: Dispatch)
        ensures
            final(self).state() == next_state(old(self).state(), event),
            dispatch_matches(old(self).state(), event, dispatch),
            final(self).same_but_state(old(self)),
    {
        on_poll(&mut self.state, event)
    }
}

} // verus!

//! The receiver registry: one receiver for each subscribed topic.

use crate::receiver::Receiver;
use crate::string_map::StringMap;
use vstd::prelude::*;

verus! {

/// The receivers by topic. `R` is what stands for a receiver.
pub struct Registry<R> {
    receivers: StringMap<R>,
}

impl<R> Registry<R> {
    /// Each registered topic with its receiver.
    pub closed spec fn view(&self) -> Map<Seq<char>, R> {
        self.receivers@
    }

    /// A registry without receivers.
    pub fn new() -> (registry: Self)
        ensures
            registry@ == Map::<Seq<char>, R>::empty(),
    {
        Registry { receivers: StringMap::new() }
    }

    /// Registers `receiver` for `topic`. A receiver that the topic already
    /// had is replaced and handed back; nothing stops it.
    pub fn register(&mut self, topic: &str, receiver: R) -> (replaced: Option<R>)
        ensures
            final(self)@ == old(self)@.insert(topic@, receiver),
            replaced == if old(self)@.contains_key(topic@) {
                Some(old(self)@[topic@])
            } else {
                None
            },
    {
        self.receivers.insert(topic.to_owned(), receiver)
    }

    /// The receiver of `topic`, if one is registered.
    pub fn get(&self, topic: &str) -> (receiver: Option<&R>)
        ensures
            match receiver {
                Some(r) => self@.contains_key(topic@) && *r == self@[topic@],
                None => !self@.contains_key(topic@),
            },
    {
        self.receivers.get(topic)
    }

    /// Whether `topic` has a receiver.
    pub fn contains(&self, topic: &str) -> (registered: bool)
        ensures
            registered == self@.contains_key(topic@),
    {
        self.receivers.contains_key(topic)
    }

    /// The number of topics that have a receiver.
    pub fn len(&self) -> (len: usize)
        ensures
            len == self@.dom().len(),
    {
        self.receivers.len()
    }
}

impl<F> Registry<Receiver<F>> {
    /// Adds `callback` to the receiver of `topic`, after the callbacks that
    /// it already has. Says whether the topic has a receiver; where it has
    /// none, nothing changes.
    pub fn add_callback(&mut self, topic: &str, callback: F) -> (added: bool)
        ensures
            added == old(self)@.contains_key(topic@),
            final(self)@.dom() == old(self)@.dom(),
            forall|other: Seq<char>|
                old(self)@.contains_key(other) && other != topic@ ==> final(self)@[other] == old(
                    self,
                )@[other],
            added ==> {
                &&& final(self)@[topic@].callbacks() == old(self)@[topic@].callbacks().push(callback)
                &&& final(self)@[topic@].topic() == old(self)@[topic@].topic()
                &&& final(self)@[topic@].state() == old(self)@[topic@].state()
                &&& final(self)@[topic@].outstanding() == old(self)@[topic@].outstanding()
                &&& final(self)@[topic@].spec_client() == old(self)@[topic@].spec_client()
            },
            !added ==> final(self)@ == old(self)@,
    {
        match self.receivers.get_mut(topic) {
            Some(receiver) => {
                receiver.add_callback(callback);
                true
            },
            None => false,
        }
    }
}

} // verus!

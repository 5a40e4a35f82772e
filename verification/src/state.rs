//! The shared node state: a map from state keys to state values, changed
//! only by the two kinds of message that nodes send.

use crate::decimal::{i64_to_string, signed_repr};
use crate::string_map::{
    distinct_keys, lemma_map_of_keys, lemma_map_of_value, map_of, StringMap,
};
use vstd::prelude::*;
use vstd::string::*;

verus! {

/// A node reports new values for some of its state keys.
#[derive(Clone, Debug, PartialEq, Eq)]
pub struct NodeStateChangeString {
    /// Key and new value, in the order in which they are applied.
    pub state_change: Vec<(String, String)>,
}

/// A node makes itself known.
#[derive(Clone, Debug, PartialEq, Eq)]
pub struct NodeStateRegister {
    pub id: String,
    pub position_type: i64,
    /// The coordinates of the position, each already written as text.
    pub position: Vec<String>,
    /// Key and value of the node's state, in the order in which they are
    /// applied.
    pub state: Vec<(String, String)>,
}

/// A message that changes the node state.
#[derive(Clone, Debug, PartialEq, Eq)]
pub enum StateMessage {
    Change(NodeStateChangeString),
    Register(NodeStateRegister),
}

/// What became of a payload.
#[derive(Debug, PartialEq, Eq)]
pub enum Outcome {
    /// The message was applied. The state is marked as changed, the
    /// consumer is to be woken once, and each of `missing` is a key of a
    /// state change that the state did not hold.
    Applied { missing: Vec<String> },
    /// The payload was no message of either kind. Nothing has changed.
    Undecodable,
}

/// `state` after a state change `change`: a key that the state holds gets
/// its new value, and a pair whose key it does not hold is dropped.
pub open spec fn change_applied(
    state: Map<Seq<char>, Seq<char>>,
    change: Seq<(Seq<char>, Seq<char>)>,
) -> Map<Seq<char>, Seq<char>>
    decreases change.len(),
{
    if change.len() == 0 {
        state
    } else {
        let before = change_applied(state, change.drop_last());
        if before.contains_key(change.last().0) {
            before.insert(change.last().0, change.last().1)
        } else {
            before
        }
    }
}

/// The keys of `change` that `state` does not hold, in their order.
pub open spec fn missing_keys(
    state: Map<Seq<char>, Seq<char>>,
    change: Seq<(Seq<char>, Seq<char>)>,
) -> Seq<Seq<char>>
    decreases change.len(),
{
    if change.len() == 0 {
        Seq::empty()
    } else if state.contains_key(change.last().0) {
        missing_keys(state, change.drop_last())
    } else {
        missing_keys(state, change.drop_last()).push(change.last().0)
    }
}

/// `state` after each of `pairs` was inserted in turn.
pub open spec fn inserted_all(
    state: Map<Seq<char>, Seq<char>>,
    pairs: Seq<(Seq<char>, Seq<char>)>,
) -> Map<Seq<char>, Seq<char>>
    decreases pairs.len(),
{
    if pairs.len() == 0 {
        state
    } else {
        inserted_all(state, pairs.drop_last()).insert(pairs.last().0, pairs.last().1)
    }
}

/// The texts `parts` written one after the other, with nothing between
/// them.
pub open spec fn joined(parts: Seq<Seq<char>>) -> Seq<char>
    decreases parts.len(),
{
    if parts.len() == 0 {
        Seq::empty()
    } else {
        joined(parts.drop_last()) + parts.last()
    }
}

/// `state` after a node with the given identity registered: `id`,
/// `position_type` and `position` are set, and then each pair of the node's
/// own state.
pub open spec fn register_applied(
    state: Map<Seq<char>, Seq<char>>,
    id: Seq<char>,
    position_type: int,
    position: Seq<Seq<char>>,
    node_state: Seq<(Seq<char>, Seq<char>)>,
) -> Map<Seq<char>, Seq<char>> {
    inserted_all(
        state.insert("id"@, id).insert("position_type"@, signed_repr(position_type)).insert(
            "position"@,
            joined(position),
        ),
        node_state,
    )
}

/// `state` after `message`.
pub open spec fn message_applied(state: Map<Seq<char>, Seq<char>>, message: StateMessage) -> Map<
    Seq<char>,
    Seq<char>,
> {
    match message {
        StateMessage::Change(change) => change_applied(state, change.state_change.deep_view()),
        StateMessage::Register(register) => register_applied(
            state,
            register.id@,
            register.position_type as int,
            register.position.deep_view(),
            register.state.deep_view(),
        ),
    }
}

/// The keys that `message` names and `state` does not hold. A registration
/// names none, as it inserts.
pub open spec fn message_missing(state: Map<Seq<char>, Seq<char>>, message: StateMessage) -> Seq<
    Seq<char>,
> {
    match message {
        StateMessage::Change(change) => missing_keys(state, change.state_change.deep_view()),
        StateMessage::Register(_) => Seq::empty(),
    }
}

/// The message that a payload is read as: a state change if it decodes as
/// one, else a registration if it decodes as one, else none.
pub open spec fn spec_first_shape(
    as_change: Option<NodeStateChangeString>,
    as_register: Option<NodeStateRegister>,
) -> Option<StateMessage> {
    match as_change {
        Some(change) => Some(StateMessage::Change(change)),
        None => match as_register {
            Some(register) => Some(StateMessage::Register(register)),
            None => None,
        },
    }
}

/// Chooses between the two readings of one payload: the state change comes
/// first.
pub fn first_shape(
    as_change: Option<NodeStateChangeString>,
    as_register: Option<NodeStateRegister>,
) -> (message: Option<StateMessage>)
    ensures
        message == spec_first_shape(as_change, as_register),
{
    match as_change {
        Some(change) => Some(StateMessage::Change(change)),
        None => match as_register {
            Some(register) => Some(StateMessage::Register(register)),
            None => None,
        },
    }
}

/// Writes `parts` one after the other.
pub fn join(parts: &Vec<String>) -> (text: String)
    ensures
        text@ == joined(parts.deep_view()),
{
    let ghost texts = parts.deep_view();
    let mut text = String::new();
    let mut i: usize = 0;
    while i < parts.len()
        invariant
            i <= parts@.len(),
            texts == parts.deep_view(),
            text@ == joined(texts.take(i as int)),
        decreases parts@.len() - i,
    {
        proof {
            assert(texts.take(i + 1).drop_last() =~= texts.take(i as int));
        }
        text.append(parts[i].as_str());
        i = i + 1;
    }
    assert(texts.take(parts@.len() as int) =~= texts);
    text
}

/// The node state, with a flag that says whether it has changed since a
/// consumer last looked.
pub struct StateStore {
    values: StringMap<String>,
    dirty: bool,
}

impl StateStore {
    /// The state: each key with its value.
    pub closed spec fn view(&self) -> Map<Seq<char>, Seq<char>> {
        self.values@.map_values(|v: String| v@)
    }

    /// Whether the state has changed since a consumer last looked.
    pub closed spec fn dirty(&self) -> bool {
        self.dirty
    }

    /// An empty state that has not changed.
    pub fn new() -> (store: Self)
        ensures
            store@ == Map::<Seq<char>, Seq<char>>::empty(),
            !store.dirty(),
    {
        StateStore { values: StringMap::new(), dirty: false }
    }

    /// The value of `key`, if the state holds it.
    pub fn get(&self, key: &str) -> (value: Option<&String>)
        ensures
            match value {
                Some(v) => self@.contains_key(key@) && v@ == self@[key@],
                None => !self@.contains_key(key@),
            },
    {
        self.values.get(key)
    }

    /// The number of keys.
    pub fn len(&self) -> (len: usize)
        ensures
            len == self@.dom().len(),
    {
        let len = self.values.len();
        assert(self@.dom() =~= self.values@.dom());
        len
    }

    /// Whether the state has changed since a consumer last looked.
    pub fn is_dirty(&self) -> (dirty: bool)
        ensures
            dirty == self.dirty(),
    {
        self.dirty
    }

    /// Says whether the state has changed since the last call, and marks it
    /// as seen.
    pub fn take_dirty(&mut self) -> (dirty: bool)
        ensures
            dirty == old(self).dirty(),
            !final(self).dirty(),
            final(self)@ == old(self)@,
    {
        let dirty = self.dirty;
        self.dirty = false;
        dirty
    }

    /// Sets `key` to `value`, whether the state holds the key or not.
    fn set(&mut self, key: &String, value: &String)
        ensures
            final(self)@ == old(self)@.insert(key@, value@),
            final(self).dirty() == old(self).dirty(),
    {
        self.values.insert(key.clone(), value.clone());
    }

    /// Applies a state change. Returns the keys that the state did not
    /// hold, whose pairs were dropped.
    pub fn apply_change(&mut self, change: &NodeStateChangeString) -> (missing: Vec<String>)
        ensures
            final(self)@ == change_applied(old(self)@, change.state_change.deep_view()),
            final(self).dirty(),
            missing.deep_view() == missing_keys(old(self)@, change.state_change.deep_view()),
    {
        let ghost pairs = change.state_change.deep_view();
        let ghost start = self@;
        let mut missing: Vec<String> = Vec::new();
        let mut i: usize = 0;
        while i < change.state_change.len()
            invariant
                i <= change.state_change@.len(),
                pairs == change.state_change.deep_view(),
                self@ == change_applied(start, pairs.take(i as int)),
                self@.dom() == start.dom(),
                missing.deep_view() == missing_keys(start, pairs.take(i as int)),
            decreases change.state_change@.len() - i,
        {
            proof {
                assert(pairs.take(i + 1).drop_last() =~= pairs.take(i as int));
            }
            let key = &change.state_change[i].0;
            let value = &change.state_change[i].1;
            if self.values.contains_key(key.as_str()) {
                self.set(key, value);
            } else {
                missing.push(key.clone());
            }
            i = i + 1;
        }
        assert(pairs.take(change.state_change@.len() as int) =~= pairs);
        self.dirty = true;
        missing
    }

    /// Applies a registration: sets `id`, `position_type` and `position`,
    /// then each pair of the node's own state.
    pub fn apply_register(&mut self, register: &NodeStateRegister)
        ensures
            final(self)@ == register_applied(
                old(self)@,
                register.id@,
                register.position_type as int,
                register.position.deep_view(),
                register.state.deep_view(),
            ),
            final(self).dirty(),
    {
        let ghost pairs = register.state.deep_view();
        self.set(&String::from_str("id"), &register.id);
        self.set(&String::from_str("position_type"), &i64_to_string(register.position_type));
        self.set(&String::from_str("position"), &join(&register.position));
        let ghost start = self@;
        let mut i: usize = 0;
        while i < register.state.len()
            invariant
                i <= register.state@.len(),
                pairs == register.state.deep_view(),
                self@ == inserted_all(start, pairs.take(i as int)),
            decreases register.state@.len() - i,
        {
            proof {
                assert(pairs.take(i + 1).drop_last() =~= pairs.take(i as int));
            }
            self.set(&register.state[i].0, &register.state[i].1);
            i = i + 1;
        }
        assert(pairs.take(register.state@.len() as int) =~= pairs);
        self.dirty = true;
    }

    /// Applies `message`, whichever kind it is.
    pub fn apply_message(&mut self, message: &StateMessage) -> (missing: Vec<String>)
        ensures
            final(self)@ == message_applied(old(self)@, *message),
            final(self).dirty(),
            missing.deep_view() == message_missing(old(self)@, *message),
    {
        match message {
            StateMessage::Change(change) => self.apply_change(change),
            StateMessage::Register(register) => {
                self.apply_register(register);
                Vec::new()
            },
        }
    }

    /// Takes in what a payload decoded to. A message is applied; a payload
    /// that was none leaves state and flag as they are.
    pub fn on_payload(&mut self, decoded: Option<StateMessage>) -> (outcome: Outcome)
        ensures
            match decoded {
                Some(message) => {
                    &&& final(self)@ == message_applied(old(self)@, message)
                    &&& final(self).dirty()
                    &&& outcome matches Outcome::Applied { missing }
                    &&& missing.deep_view() == message_missing(old(self)@, message)
                },
                None => {
                    &&& final(self)@ == old(self)@
                    &&& final(self).dirty() == old(self).dirty()
                    &&& outcome is Undecodable
                },
            },
    {
        match decoded {
            Some(message) => Outcome::Applied { missing: self.apply_message(&message) },
            None => Outcome::Undecodable,
        }
    }

    /// A copy of the state as it is now: each key once, with its value.
    pub fn snapshot(&self) -> (pairs: Vec<(String, String)>)
        ensures
            distinct_keys(pairs.deep_view()),
            map_of(pairs.deep_view()) == self@,
            pairs@.len() == self@.dom().len(),
    {
        let mut pairs: Vec<(String, String)> = Vec::new();
        let count: usize = self.values.len();
        assert(self@.dom() =~= self.values@.dom());
        let mut i: usize = 0;
        while i < count
            invariant
                i <= count,
                count == self.values.pairs().len(),
                pairs@.len() == i,
                forall|k: int|
                    0 <= k < i ==> (#[trigger] pairs.deep_view()[k]) == (
                        self.values.pairs()[k].0,
                        self.values.pairs()[k].1@,
                    ),
            decreases count - i,
        {
            match self.values.entry(i) {
                Some((key, value)) => {
                    let ghost copied = pairs.deep_view();
                    pairs.push((key.clone(), value.clone()));
                    assert(pairs.deep_view() =~= copied.push((key@, value@)));
                },
                None => {},
            }
            i = i + 1;
        }
        proof {
            self.lemma_snapshot(pairs.deep_view());
        }
        pairs
    }

    /// A sequence that holds each entry's key and value text is a faithful
    /// copy of the state.
    proof fn lemma_snapshot(&self, copy: Seq<(Seq<char>, Seq<char>)>)
        requires
            distinct_keys(self.values.pairs()),
            copy.len() == self.values.pairs().len(),
            forall|k: int|
                0 <= k < copy.len() ==> (#[trigger] copy[k]) == (
                    self.values.pairs()[k].0,
                    self.values.pairs()[k].1@,
                ),
        ensures
            distinct_keys(copy),
            map_of(copy) == self@,
    {
        let entries = self.values.pairs();
        assert(distinct_keys(copy));
        assert forall|k: Seq<char>| map_of(copy).contains_key(k) <==> self@.contains_key(k) by {
            lemma_map_of_keys(copy, k);
            lemma_map_of_keys(entries, k);
            if map_of(copy).contains_key(k) {
                let j = choose|j: int| 0 <= j < copy.len() && (#[trigger] copy[j]).0 == k;
                assert(entries[j].0 == k);
            }
            if self@.contains_key(k) {
                let j = choose|j: int| 0 <= j < entries.len() && (#[trigger] entries[j]).0 == k;
                assert(copy[j].0 == k);
            }
        }
        assert forall|k: Seq<char>| map_of(copy).contains_key(k) implies map_of(copy)[k]
            == self@[k] by {
            lemma_map_of_keys(copy, k);
            let j = choose|j: int| 0 <= j < copy.len() && (#[trigger] copy[j]).0 == k;
            lemma_map_of_value(copy, j);
            lemma_map_of_value(entries, j);
        }
    }
}

/// A state change adds no key and takes none away.
pub proof fn lemma_change_keeps_keys(
    state: Map<Seq<char>, Seq<char>>,
    change: Seq<(Seq<char>, Seq<char>)>,
)
    ensures
        change_applied(state, change).dom() == state.dom(),
    decreases change.len(),
{
    if change.len() > 0 {
        lemma_change_keeps_keys(state, change.drop_last());
    }
}

/// A state change none of whose keys the state holds changes nothing, and
/// all of its keys are reported missing.
pub proof fn lemma_change_of_unknown_keys(
    state: Map<Seq<char>, Seq<char>>,
    change: Seq<(Seq<char>, Seq<char>)>,
)
    requires
        forall|i: int| 0 <= i < change.len() ==> !state.contains_key((#[trigger] change[i]).0),
    ensures
        change_applied(state, change) == state,
        missing_keys(state, change) == change.map_values(|pair: (Seq<char>, Seq<char>)| pair.0),
    decreases change.len(),
{
    if change.len() > 0 {
        lemma_change_of_unknown_keys(state, change.drop_last());
    }
}

/// A state change sets a key that the state holds to the value of the last
/// pair that names it.
pub proof fn lemma_change_sets_value(
    state: Map<Seq<char>, Seq<char>>,
    change: Seq<(Seq<char>, Seq<char>)>,
    i: int,
)
    requires
        0 <= i < change.len(),
        state.contains_key(change[i].0),
        forall|j: int| i < j < change.len() ==> (#[trigger] change[j]).0 != change[i].0,
    ensures
        change_applied(state, change).contains_key(change[i].0),
        change_applied(state, change)[change[i].0] == change[i].1,
    decreases change.len(),
{
    lemma_change_keeps_keys(state, change.drop_last());
    if i < change.len() - 1 {
        lemma_change_sets_value(state, change.drop_last(), i);
    }
}

/// A state change leaves the value of every key alone that it does not
/// name.
pub proof fn lemma_change_leaves_others(
    state: Map<Seq<char>, Seq<char>>,
    change: Seq<(Seq<char>, Seq<char>)>,
    key: Seq<char>,
)
    requires
        forall|i: int| 0 <= i < change.len() ==> (#[trigger] change[i]).0 != key,
    ensures
        change_applied(state, change).contains_key(key) == state.contains_key(key),
        state.contains_key(key) ==> change_applied(state, change)[key] == state[key],
    decreases change.len(),
{
    if change.len() > 0 {
        lemma_change_leaves_others(state, change.drop_last(), key);
    }
}

/// After pairs were inserted in turn, each key among them has the value of
/// the last pair that names it.
pub proof fn lemma_inserted_value(
    state: Map<Seq<char>, Seq<char>>,
    pairs: Seq<(Seq<char>, Seq<char>)>,
    i: int,
)
    requires
        0 <= i < pairs.len(),
        forall|j: int| i < j < pairs.len() ==> (#[trigger] pairs[j]).0 != pairs[i].0,
    ensures
        inserted_all(state, pairs).contains_key(pairs[i].0),
        inserted_all(state, pairs)[pairs[i].0] == pairs[i].1,
    decreases pairs.len(),
{
    if i < pairs.len() - 1 {
        lemma_inserted_value(state, pairs.drop_last(), i);
    }
}

/// Inserting pairs leaves every key alone that is not among them.
pub proof fn lemma_inserted_leaves_others(
    state: Map<Seq<char>, Seq<char>>,
    pairs: Seq<(Seq<char>, Seq<char>)>,
    key: Seq<char>,
)
    requires
        forall|i: int| 0 <= i < pairs.len() ==> (#[trigger] pairs[i]).0 != key,
    ensures
        inserted_all(state, pairs).contains_key(key) == state.contains_key(key),
        state.contains_key(key) ==> inserted_all(state, pairs)[key] == state[key],
    decreases pairs.len(),
{
    if pairs.len() > 0 {
        lemma_inserted_leaves_others(state, pairs.drop_last(), key);
    }
}

/// After a registration the state holds the node's identity, the type of
/// its position and the position written in one piece, unless the node's
/// own state names one of these keys, and every pair of the node's own
/// state that no later pair overrides.
pub proof fn lemma_register_sets_identity(
    state: Map<Seq<char>, Seq<char>>,
    id: Seq<char>,
    position_type: int,
    position: Seq<Seq<char>>,
    node_state: Seq<(Seq<char>, Seq<char>)>,
)
    requires
        forall|i: int|
            0 <= i < node_state.len() ==> (#[trigger] node_state[i]).0 != "id"@ && node_state[i].0
                != "position_type"@ && node_state[i].0 != "position"@,
    ensures
        ({
            let after = register_applied(state, id, position_type, position, node_state);
            &&& after.contains_key("id"@) && after["id"@] == id
            &&& after.contains_key("position_type"@) && after["position_type"@] == signed_repr(
                position_type,
            )
            &&& after.contains_key("position"@) && after["position"@] == joined(position)
        }),
{
    reveal_strlit("id");
    reveal_strlit("position_type");
    reveal_strlit("position");
    assert("id"@.len() == 2 && "position_type"@.len() == 13 && "position"@.len() == 8);
    let base = state.insert("id"@, id).insert("position_type"@, signed_repr(position_type)).insert(
        "position"@,
        joined(position),
    );
    lemma_inserted_leaves_others(base, node_state, "id"@);
    lemma_inserted_leaves_others(base, node_state, "position_type"@);
    lemma_inserted_leaves_others(base, node_state, "position"@);
}

} // verus!

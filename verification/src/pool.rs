//! The connection pool: a fixed set of connections over which outbound
//! sends rotate.

use crate::connect::{options_of_loop, spec_transport_options};
use crate::connection::MqttConnection;
use crate::decimal::{decimal_repr, lemma_decimal_repr_injective, push_decimal};
use crate::dispatch::LoopState;
use rumqttc::EventLoop;
use vstd::arithmetic::div_mod::{lemma_add_mod_noop_right, lemma_mod_self_0, lemma_small_mod};
use vstd::prelude::*;
use vstd::string::*;

verus! {

/// The cursor that follows `cursor` in a pool of `size` connections.
pub open spec fn advance(cursor: int, size: int) -> int {
    (cursor + 1) % size
}

/// The cursor of a pool of `size` connections after `sends` sends, having
/// started at `cursor`. It is also the connection on which the next send
/// lands.
pub open spec fn cursor_after(cursor: int, size: int, sends: nat) -> int
    decreases sends,
{
    if sends == 0 {
        cursor
    } else {
        advance(cursor_after(cursor, size, (sends - 1) as nat), size)
    }
}

/// The client identifier of the pool's connection number `index`.
pub open spec fn client_id_text(index: nat) -> Seq<char> {
    "dt_client_"@ + decimal_repr(index)
}

/// The client identifier of a receiver's connection in the process
/// `process_id`.
pub open spec fn receiver_client_id_text(process_id: nat) -> Seq<char> {
    "dt_receiver_"@ + decimal_repr(process_id)
}

/// The client identifier of the pool's connection number `index`.
pub fn client_id(index: usize) -> (id: String)
    ensures
        id@ == client_id_text(index as nat),
{
    let mut id = String::from_str("dt_client_");
    push_decimal(&mut id, index as u64);
    id
}

/// The client identifier of a receiver's connection in the process
/// `process_id`.
pub fn receiver_client_id(process_id: u32) -> (id: String)
    ensures
        id@ == receiver_client_id_text(process_id as nat),
{
    let mut id = String::from_str("dt_receiver_");
    push_decimal(&mut id, process_id as u64);
    id
}

/// Opens the `size` connections of a pool to `host`, one after the other,
/// all with the same credentials and each under the client identifier of
/// its place. Each comes with the event loop that its background loop has
/// to poll, which holds the transport's options for these.
pub fn open_connections<F>(host: &str, username: &str, password: &str, size: usize) -> (opened: Vec<
    (MqttConnection<F>, EventLoop),
>)
    ensures
        opened@.len() == size,
        forall|i: int|
            0 <= i < size ==> {
                &&& options_of_loop((#[trigger] opened@[i]).1) == spec_transport_options(
                    host@,
                    username@,
                    password@,
                    client_id_text(i as nat),
                )
                &&& opened@[i].0.spec_client_id() == client_id_text(i as nat)
                &&& opened@[i].0.callbacks() == Seq::<F>::empty()
                &&& opened@[i].0.state() == LoopState::Running
            },
        forall|i: int, j: int|
            0 <= i < j < size ==> (#[trigger] opened@[i]).0.spec_client_id() != (
            #[trigger] opened@[j]).0.spec_client_id(),
{
    let mut opened: Vec<(MqttConnection<F>, EventLoop)> = Vec::new();
    let mut i: usize = 0;
    while i < size
        invariant
            i <= size,
            opened@.len() == i,
            forall|k: int|
                0 <= k < i ==> {
                    &&& options_of_loop((#[trigger] opened@[k]).1) == spec_transport_options(
                        host@,
                        username@,
                        password@,
                        client_id_text(k as nat),
                    )
                    &&& opened@[k].0.spec_client_id() == client_id_text(k as nat)
                    &&& opened@[k].0.callbacks() == Seq::<F>::empty()
                    &&& opened@[k].0.state() == LoopState::Running
                },
        decreases size - i,
    {
        let id = client_id(i);
        opened.push(MqttConnection::new(host, username, password, id.as_str()));
        i = i + 1;
    }
    proof {
        assert forall|i: int, j: int| 0 <= i < j < size implies (
        #[trigger] opened@[i]).0.spec_client_id() != (#[trigger] opened@[j]).0.spec_client_id() by {
            lemma_client_ids_distinct(i as nat, j as nat);
        }
    }
    opened
}

/// A pool of connections of type `C`. It holds at least one, never adds,
/// drops or replaces one, and sends rotate over them in order.
pub struct MqttConnectionPool<C> {
    connections: Vec<C>,
    current_index: usize,
}

impl<C> MqttConnectionPool<C> {
    #[verifier::type_invariant]
    spec fn well_formed(self) -> bool {
        self.current_index < self.connections@.len()
    }

    /// The connections, in the order of the rotation.
    pub closed spec fn connections(&self) -> Seq<C> {
        self.connections@
    }

    /// The position of the connection on which the next send lands.
    pub closed spec fn cursor(&self) -> int {
        self.current_index as int
    }

    /// A pool of the given connections, with the cursor on the first. There
    /// is no pool without a connection.
    pub fn new(connections: Vec<C>) -> (pool: Option<Self>)
        ensures
            pool is Some <==> connections@.len() >= 1,
            pool matches Some(p) ==> p.connections() == connections@ && p.cursor() == 0,
    {
        if connections.len() == 0 {
            None
        } else {
            Some(MqttConnectionPool { connections, current_index: 0 })
        }
    }

    /// The number of connections.
    pub fn size(&self) -> (size: usize)
        ensures
            size == self.connections().len(),
            size >= 1,
            0 <= self.cursor() < size,
    {
        proof {
            use_type_invariant(self);
        }
        self.connections.len()
    }

    /// Chooses the connection for one send: the one under the cursor, which
    /// then moves on by one and wraps at the end. The choice depends on
    /// nothing but the cursor, and the connections stay as they are.
    pub fn next_index(&mut self) -> (index: usize)
        ensures
            index == old(self).cursor(),
            index < old(self).connections().len(),
            final(self).cursor() == advance(old(self).cursor(), old(self).connections().len() as int),
            final(self).connections() == old(self).connections(),
    {
        proof {
            use_type_invariant(&*self);
        }
        let current: usize = self.current_index;
        let size: usize = self.connections.len();
        self.current_index = (current + 1) % size;
        current
    }

    /// Chooses the connection for one send and hands it out: the connection
    /// under the cursor, which then moves on as in [`Self::next_index`].
    pub fn next_connection(&mut self) -> (connection: &C)
        ensures
            *connection == old(self).connections()[old(self).cursor()],
            final(self).cursor() == advance(old(self).cursor(), old(self).connections().len() as int),
            final(self).connections() == old(self).connections(),
    {
        let current: usize = self.next_index();
        &self.connections[current]
    }

    /// The connection at `index`, if the pool has that many.
    pub fn connection(&self, index: usize) -> (connection: Option<&C>)
        ensures
            connection is Some <==> index < self.connections().len(),
            connection matches Some(c) ==> *c == self.connections()[index as int],
    {
        if index < self.connections.len() {
            Some(&self.connections[index])
        } else {
            None
        }
    }

    /// The connection set aside for receiving: the first.
    pub fn get_receiver_connection(&self) -> (connection: &C)
        ensures
            *connection == self.connections()[0],
    {
        proof {
            use_type_invariant(self);
        }
        &self.connections[0]
    }

    /// Opens a connection of its own for a receiver, outside the pool,
    /// named after the process `process_id`.
    pub fn create_receiver_connection<F>(
        &self,
        host: &str,
        username: &str,
        password: &str,
        process_id: u32,
    ) -> (opened: (MqttConnection<F>, EventLoop))
        ensures
            options_of_loop(opened.1) == spec_transport_options(
                host@,
                username@,
                password@,
                receiver_client_id_text(process_id as nat),
            ),
            opened.0.spec_client_id() == receiver_client_id_text(process_id as nat),
            opened.0.callbacks() == Seq::<F>::empty(),
            opened.0.state() == LoopState::Running,
    {
        let id = receiver_client_id(process_id);
        MqttConnection::new(host, username, password, id.as_str())
    }
}

/// After `sends` sends the cursor has moved on by as many places, wrapping
/// at the size of the pool.
pub proof fn lemma_cursor_after(cursor: int, size: int, sends: nat)
    requires
        0 <= cursor < size,
    ensures
        cursor_after(cursor, size, sends) == (cursor + sends) % size,
    decreases sends,
{
    if sends == 0 {
        lemma_small_mod(cursor as nat, size as nat);
    } else {
        lemma_cursor_after(cursor, size, (sends - 1) as nat);
        lemma_add_mod_noop_right(1, cursor + sends - 1, size);
    }
}

/// Of as many consecutive sends as the pool has connections, no two land on
/// the same connection.
pub proof fn lemma_rotation_visits_distinct(cursor: int, size: int, i: nat, j: nat)
    requires
        0 <= cursor < size,
        i < j < size,
    ensures
        cursor_after(cursor, size, i) != cursor_after(cursor, size, j),
        0 <= cursor_after(cursor, size, i) < size,
        0 <= cursor_after(cursor, size, j) < size,
{
    lemma_cursor_after(cursor, size, i);
    lemma_cursor_after(cursor, size, j);
    lemma_wrapped_sum(cursor, size, i as int);
    lemma_wrapped_sum(cursor, size, j as int);
}

/// After as many sends as the pool has connections the next one lands where
/// the first did.
pub proof fn lemma_rotation_wraps(cursor: int, size: int)
    requires
        0 <= cursor < size,
    ensures
        cursor_after(cursor, size, size as nat) == cursor,
        cursor_after(cursor, size, size as nat) == cursor_after(cursor, size, 0),
{
    lemma_cursor_after(cursor, size, size as nat);
    lemma_wrapped_sum(cursor, size, size);
}

/// Whatever becomes of the other connections, each connection of the pool
/// is reached again within as many sends as the pool has connections.
pub proof fn lemma_rotation_reaches_each(cursor: int, size: int, target: int)
    requires
        0 <= cursor < size,
        0 <= target < size,
    ensures
        exists|sends: nat| sends < size && cursor_after(cursor, size, sends) == target,
{
    let sends = if target >= cursor {
        (target - cursor) as nat
    } else {
        (target - cursor + size) as nat
    };
    lemma_cursor_after(cursor, size, sends);
    lemma_wrapped_sum(cursor, size, sends as int);
    assert(cursor_after(cursor, size, sends) == target);
}

/// The sum of a cursor and at most one round, reduced to the pool.
proof fn lemma_wrapped_sum(cursor: int, size: int, k: int)
    requires
        0 <= cursor < size,
        0 <= k <= size,
    ensures
        (cursor + k) % size == if cursor + k < size {
            cursor + k
        } else {
            cursor + k - size
        },
{
    if cursor + k < size {
        lemma_small_mod((cursor + k) as nat, size as nat);
    } else {
        lemma_small_mod((cursor + k - size) as nat, size as nat);
        lemma_mod_self_0(size);
        lemma_add_mod_noop_right(cursor + k - size, size, size);
    }
}

/// Connections at different places in a pool have different client
/// identifiers.
pub proof fn lemma_client_ids_distinct(i: nat, j: nat)
    requires
        i != j,
    ensures
        client_id_text(i) != client_id_text(j),
{
    if client_id_text(i) == client_id_text(j) {
        let prefix = "dt_client_"@;
        assert(decimal_repr(i) =~= client_id_text(i).skip(prefix.len() as int));
        assert(decimal_repr(j) =~= client_id_text(j).skip(prefix.len() as int));
        lemma_decimal_repr_injective(i, j);
    }
}

} // verus!

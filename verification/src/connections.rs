//! The clients that are connected through a tunnel.
use std::collections::HashMap;
use vstd::prelude::*;
use crate::text;
use crate::text::number;

verus! {

broadcast use {vstd::string::group_string_axioms, vstd::std_specs::hash::group_hash_axioms};

/// The number of clients that a tunnel serves at once.
pub const MAX_ACTIVE_CONNECTIONS: usize = 128;

/// The streams of the clients that a tunnel serves, each under a number of its
/// own.
pub struct ActiveConnections<S> {
    next_id: u64,
    streams: HashMap<u64, S>,
}

/// The content of an [`ActiveConnections`].
#[verifier::ext_equal]
pub struct ConnectionsModel<S> {
    /// The number of the next client.
    pub next_id: u64,
    /// The stream of each client.
    pub streams: Map<u64, S>,
}

impl<S> View for ActiveConnections<S> {
    type V = ConnectionsModel<S>;

    closed spec fn view(&self) -> ConnectionsModel<S> {
        ConnectionsModel { next_id: self.next_id, streams: self.streams@ }
    }
}

/// The number after another; after the greatest comes zero.
pub open spec fn following(id: u64) -> u64 {
    if id == u64::MAX {
        0
    } else {
        (id + 1) as u64
    }
}

/// There is room for one more client.
pub open spec fn has_room<S>(connections: ConnectionsModel<S>) -> bool {
    connections.streams.dom().len() < MAX_ACTIVE_CONNECTIONS
}

/// The clients and one more.
pub open spec fn with_client<S>(connections: ConnectionsModel<S>, stream: S) -> ConnectionsModel<
    S,
> {
    ConnectionsModel {
        next_id: following(connections.next_id),
        streams: connections.streams.insert(connections.next_id, stream),
    }
}

/// The clients but for one.
pub open spec fn without_client<S>(connections: ConnectionsModel<S>, id: u64) -> ConnectionsModel<
    S,
> {
    ConnectionsModel { streams: connections.streams.remove(id), ..connections }
}

/// What a client is told that finds no room.
pub open spec fn no_room_message() -> Seq<char> {
    "Too many active tunnel connections. Limit is "@ + text::decimal(
        MAX_ACTIVE_CONNECTIONS as nat,
    ) + "."@
}

impl<S> ActiveConnections<S> {
    /// There are never more clients than the limit.
    pub closed spec fn wf(&self) -> bool {
        self@.streams.dom().finite() && self@.streams.dom().len() <= MAX_ACTIVE_CONNECTIONS
    }

    /// No clients.
    pub fn new() -> (connections: ActiveConnections<S>)
        ensures
            connections.wf(),
            connections@ == (ConnectionsModel::<S> { next_id: 0, streams: Map::empty() }),
    {
        let connections = ActiveConnections { next_id: 0, streams: HashMap::new() };
        assert(connections@.streams.dom() =~= Set::empty());
        connections
    }

    /// The number of clients.
    pub fn len(&self) -> (count: usize)
        requires
            self.wf(),
        ensures
            count == self@.streams.dom().len(),
            count <= MAX_ACTIVE_CONNECTIONS,
    {
        self.streams.len()
    }

    /// Takes a client in, if there is room; gives its number.
    pub fn try_track(&mut self, stream: S) -> (result: Result<u64, String>)
        requires
            old(self).wf(),
        ensures
            final(self).wf(),
            match result {
                Ok(id) => {
                    &&& has_room(old(self)@)
                    &&& id == old(self)@.next_id
                    &&& final(self)@ == with_client(old(self)@, stream)
                },
                Err(message) => {
                    &&& !has_room(old(self)@)
                    &&& message@ == no_room_message()
                    &&& final(self)@ == old(self)@
                },
            },
    {
        if self.streams.len() >= MAX_ACTIVE_CONNECTIONS {
            let mut message = "Too many active tunnel connections. Limit is ".to_string();
            let limit = number(MAX_ACTIVE_CONNECTIONS as u64);
            message.append(limit.as_str());
            message.append(".");
            return Err(message);
        }
        let id: u64 = self.next_id;
        self.next_id = id.wrapping_add(1);
        let _ = self.streams.insert(id, stream);
        Ok(id)
    }

    /// Lets a client go, if one is given.
    pub fn untrack(&mut self, id: Option<u64>)
        requires
            old(self).wf(),
        ensures
            final(self).wf(),
            final(self)@ == match id {
                Some(id) => without_client(old(self)@, id),
                None => old(self)@,
            },
    {
        match id {
            Some(id) => {
                let _ = self.streams.remove(&id);
                assert(self@.streams =~= old(self)@.streams.remove(id));
            },
            None => {},
        }
    }

    /// The streams of all clients.
    pub fn streams(&self) -> (streams: &HashMap<u64, S>)
        ensures
            streams@ == self@.streams,
    {
        &self.streams
    }
}

/// The clients never outnumber the limit: taking one in where there is room, and
/// letting one go, keep it so.
pub proof fn law_limit_is_kept<S>(connections: ConnectionsModel<S>, stream: S, id: u64)
    requires
        connections.streams.dom().finite(),
        connections.streams.dom().len() <= MAX_ACTIVE_CONNECTIONS,
    ensures
        has_room(connections) ==> with_client(connections, stream).streams.dom().len()
            <= MAX_ACTIVE_CONNECTIONS,
        without_client(connections, id).streams.dom().len() <= MAX_ACTIVE_CONNECTIONS,
{
}

/// Letting a client go undoes taking it in, but for the number that it had, as
/// long as that number is not in use.
pub proof fn law_untrack_undoes_track<S>(connections: ConnectionsModel<S>, stream: S)
    requires
        !connections.streams.dom().contains(connections.next_id),
    ensures
        without_client(with_client(connections, stream), connections.next_id).streams
            == connections.streams,
{
    assert(without_client(with_client(connections, stream), connections.next_id).streams
        =~= connections.streams);
}

/// Where every number in use is smaller than the next one, it stays so, and no
/// client takes the place of another.
pub proof fn law_numbers_are_fresh<S>(connections: ConnectionsModel<S>, stream: S)
    requires
        connections.next_id < u64::MAX,
        forall|id: u64| #[trigger]
            connections.streams.dom().contains(id) ==> id < connections.next_id,
    ensures
        !connections.streams.dom().contains(connections.next_id),
        forall|id: u64| #[trigger]
            with_client(connections, stream).streams.dom().contains(id) ==> id < with_client(
                connections,
                stream,
            ).next_id,
        forall|id: u64| #[trigger]
            connections.streams.dom().contains(id) ==> with_client(connections, stream).streams[id]
                == connections.streams[id],
{
}

/// Once a tunnel is full, a client that leaves makes room for another.
pub proof fn law_leaving_makes_room<S>(connections: ConnectionsModel<S>, id: u64)
    requires
        connections.streams.dom().finite(),
        connections.streams.dom().len() <= MAX_ACTIVE_CONNECTIONS,
        connections.streams.dom().contains(id),
    ensures
        has_room(without_client(connections, id)),
{
}

/// A tunnel has room exactly as long as it serves fewer than 128 clients; a client
/// that finds none is told of that number.
pub proof fn law_room_for_128<S>(connections: ConnectionsModel<S>)
    ensures
        has_room(connections) <==> connections.streams.dom().len() < 128,
        no_room_message() == "Too many active tunnel connections. Limit is 128."@,
{
    reveal_strlit("Too many active tunnel connections. Limit is ");
    reveal_strlit("Too many active tunnel connections. Limit is 128.");
    reveal_strlit(".");
    assert(text::decimal(1) =~= seq!['1']);
    assert(text::decimal(12) =~= seq!['1', '2']);
    assert(text::decimal(128) =~= seq!['1', '2', '8']);
    assert(no_room_message() =~= "Too many active tunnel connections. Limit is 128."@);
}

/// A client that is taken in is found under its number with its very stream, all
/// others stay as they are, and the next client gets the next number.
pub proof fn law_client_is_kept_under_its_number<S>(
    connections: ConnectionsModel<S>,
    stream: S,
    other: u64,
)
    ensures
        ({
            let after = with_client(connections, stream);
            &&& after.streams.dom().contains(connections.next_id)
            &&& after.streams[connections.next_id] == stream
            &&& other != connections.next_id ==> after.streams.dom().contains(other)
                == connections.streams.dom().contains(other) && after.streams[other]
                == connections.streams[other]
            &&& connections.next_id < u64::MAX ==> after.next_id == connections.next_id + 1
            &&& connections.next_id == u64::MAX ==> after.next_id == 0
        }),
{
}

/// A client that leaves is gone; all others stay as they are, and so does the next
/// number.
pub proof fn law_client_that_leaves_is_gone<S>(
    connections: ConnectionsModel<S>,
    id: u64,
    other: u64,
)
    ensures
        ({
            let after = without_client(connections, id);
            &&& !after.streams.dom().contains(id)
            &&& other != id ==> after.streams.dom().contains(other)
                == connections.streams.dom().contains(other) && after.streams[other]
                == connections.streams[other]
            &&& after.next_id == connections.next_id
        }),
{
}

/// A client is taken in exactly where fewer than 128 are served, under the next
/// number and with its own stream; else nothing changes.
pub proof fn law_taking_a_client_in<S>(
    connections: &mut ActiveConnections<S>,
    stream: S,
    result: Result<u64, String>,
)
    requires
        call_ensures(ActiveConnections::<S>::try_track, (connections, stream), result),
    ensures
        result is Ok <==> old(connections)@.streams.dom().len() < 128,
        result matches Ok(id) ==> {
            &&& id == old(connections)@.next_id
            &&& final(connections)@.streams == old(connections)@.streams.insert(id, stream)
        },
        result is Err ==> final(connections)@ == old(connections)@,
{
}

/// A client that is let go is gone, and all others stay.
pub proof fn law_letting_a_client_go<S>(connections: &mut ActiveConnections<S>, id: Option<u64>)
    requires
        call_ensures(ActiveConnections::<S>::untrack, (connections, id), ()),
    ensures
        id matches Some(id) ==> final(connections)@.streams == old(connections)@.streams.remove(
            id,
        ),
        id is None ==> final(connections)@ == old(connections)@,
        final(connections)@.next_id == old(connections)@.next_id,
{
}

} // verus!

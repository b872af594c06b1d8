//! The session registry: which viewer sessions are live, and the connection
//! of each. A session leaves the registry at most once, whichever of an
//! explicit delete and a terminal connection state comes first.

use std::sync::Arc;
use vstd::prelude::*;

verus! {

/// `dashmap::DashMap`, a sharded concurrent hash map. Verus sees nothing
/// inside it.
#[verifier::external_type_specification]
#[verifier::external_body]
#[verifier::reject_recursive_types(K)]
#[verifier::reject_recursive_types(V)]
#[verifier::reject_recursive_types(S)]
pub struct ExDashMap<K, V, S>(dashmap::DashMap<K, V, S>);

/// `webrtc::peer_connection::RTCPeerConnection`, the connection to one
/// viewer. Verus sees nothing inside it: the registry only carries it.
#[verifier::external_type_specification]
#[verifier::external_body]
pub struct ExRTCPeerConnection(webrtc::peer_connection::RTCPeerConnection);

/// The connection to one viewer, shared with the tasks that serve it.
pub type Connection = Arc<webrtc::peer_connection::RTCPeerConnection>;

/// The map that a registry keeps: connections by session identifier.
pub type ConnectionMap = dashmap::DashMap<String, Connection>;

/// The entries of a map of connections by session identifier.
pub uninterp spec fn map_entries(map: ConnectionMap) -> Map<Seq<char>, Connection>;

/// The entries of a map that holds nothing.
pub open spec fn no_entries() -> Map<Seq<char>, Connection> {
    Map::empty()
}

/// Calls `DashMap::new`. Claims that the new map has no entry.
#[verifier::external_body]
fn map_new() -> (created: ConnectionMap)
    ensures
        map_entries(created) == no_entries(),
{
    dashmap::DashMap::new()
}

/// Calls `DashMap::insert`, on a map that nothing else can reach during the
/// call. Claims that afterwards `id` maps to `connection`, that the other
/// entries are as before, and that the value `id` had before, if any, is
/// returned.
#[verifier::external_body]
fn map_insert(registry: &mut SessionRegistry, id: String, connection: Connection) -> (previous:
    Option<Connection>)
    ensures
        map_entries(final(registry).sessions) == map_entries(old(registry).sessions).insert(
            id@,
            connection,
        ),
        previous == if map_entries(old(registry).sessions).contains_key(id@) {
            Some(map_entries(old(registry).sessions)[id@])
        } else {
            None
        },
{
    registry.sessions.insert(id, connection)
}

/// Calls `DashMap::remove`, on a map that nothing else can reach during the
/// call. Claims that afterwards `id` has no entry, that the other entries are
/// as before, and that the value `id` had before, if any, is returned.
#[verifier::external_body]
fn map_remove(registry: &mut SessionRegistry, id: &str) -> (removed: Option<Connection>)
    ensures
        map_entries(final(registry).sessions) == map_entries(old(registry).sessions).remove(id@),
        removed == if map_entries(old(registry).sessions).contains_key(id@) {
            Some(map_entries(old(registry).sessions)[id@])
        } else {
            None
        },
{
    registry.sessions.remove(id).map(|entry| entry.1)
}

/// Calls `DashMap::len`. Claims that it is the number of entries.
#[verifier::external_body]
fn map_len(map: &ConnectionMap) -> (n: usize)
    ensures
        n == map_entries(*map).dom().len(),
{
    map.len()
}

/// Calls `DashMap::contains_key`. Claims that it tells whether `id` has an
/// entry.
#[verifier::external_body]
fn map_contains(map: &ConnectionMap, id: &str) -> (found: bool)
    ensures
        found == map_entries(*map).contains_key(id@),
{
    map.contains_key(id)
}

/// The connection that `entries` holds for `id`, if any.
pub open spec fn connection_of(entries: Map<Seq<char>, Connection>, id: Seq<char>) -> Option<
    Connection,
> {
    if entries.contains_key(id) {
        Some(entries[id])
    } else {
        None
    }
}

/// The states that a viewer's connection goes through.
#[derive(Clone, Copy, Debug, PartialEq, Eq, Structural)]
pub enum ConnectionState {
    Unspecified,
    New,
    Connecting,
    Connected,
    Disconnected,
    Failed,
    Closed,
}

impl ConnectionState {
    /// Whether a connection that reached this state is torn down.
    pub open spec fn terminal(self) -> bool {
        self == ConnectionState::Disconnected || self == ConnectionState::Failed || self
            == ConnectionState::Closed
    }

    /// Whether a connection that reached this state is torn down.
    pub fn is_terminal(&self) -> (r: bool)
        ensures
            r == self.terminal(),
    {
        match self {
            ConnectionState::Disconnected | ConnectionState::Failed | ConnectionState::Closed => true,
            _ => false,
        }
    }
}

/// The live sessions of the relay: the connection of each viewer, by session
/// identifier. A single owner changes it, so each insert and remove is one
/// step and none overlaps another.
pub struct SessionRegistry {
    sessions: ConnectionMap,
}

impl View for SessionRegistry {
    type V = Map<Seq<char>, Connection>;

    closed spec fn view(&self) -> Map<Seq<char>, Connection> {
        map_entries(self.sessions)
    }
}

impl SessionRegistry {
    /// A registry holds finitely many sessions.
    #[verifier::type_invariant]
    spec fn well_formed(&self) -> bool {
        map_entries(self.sessions).dom().finite()
    }

    /// A registry without sessions.
    pub fn new() -> (r: SessionRegistry)
        ensures
            r@ == no_entries(),
    {
        SessionRegistry { sessions: map_new() }
    }

    /// Registers `connection` as the session `id`. Where `id` was registered
    /// already, the new connection replaces the old one, which is returned.
    pub fn insert(&mut self, id: String, connection: Connection) -> (previous: Option<Connection>)
        ensures
            final(self)@ == old(self)@.insert(id@, connection),
            previous == connection_of(old(self)@, id@),
            final(self)@.len() == if previous is Some {
                old(self)@.len()
            } else {
                old(self)@.len() + 1
            },
    {
        proof {
            use_type_invariant(&*self);
            lemma_insert_counts(self@, id@, connection);
        }
        map_insert(self, id, connection)
    }

    /// Removes the session `id` and returns its connection; `None`, and
    /// nothing changes, where no such session is registered.
    pub fn remove(&mut self, id: &str) -> (removed: Option<Connection>)
        ensures
            final(self)@ == old(self)@.remove(id@),
            removed == connection_of(old(self)@, id@),
            removed is None ==> final(self)@ == old(self)@,
            final(self)@.len() + (if removed is Some {
                1nat
            } else {
                0nat
            }) == old(self)@.len(),
    {
        proof {
            use_type_invariant(&*self);
            lemma_remove_counts(self@, id@);
        }
        map_remove(self, id)
    }

    /// The number of live sessions.
    pub fn len(&self) -> (n: usize)
        ensures
            n == self@.len(),
    {
        proof {
            use_type_invariant(self);
        }
        map_len(&self.sessions)
    }

    /// Whether no session is live.
    pub fn is_empty(&self) -> (r: bool)
        ensures
            r == (self@ == no_entries()),
    {
        let n = self.len();
        proof {
            use_type_invariant(self);
            if n == 0 {
                assert(self@.dom() =~= Set::<Seq<char>>::empty());
                assert(self@ =~= no_entries());
            }
        }
        n == 0
    }

    /// Whether the session `id` is live.
    pub fn contains(&self, id: &str) -> (r: bool)
        ensures
            r == self@.contains_key(id@),
    {
        map_contains(&self.sessions, id)
    }

    /// Reacts to a state change of the connection of session `id`: a
    /// terminal state removes the session and hands back its connection to
    /// be closed; any other state changes nothing. Where the session is gone
    /// already, nothing happens.
    pub fn on_connection_state(&mut self, id: &str, state: ConnectionState) -> (released: Option<
        Connection,
    >)
        ensures
            final(self)@ == after_state_change(old(self)@, id@, state),
            released == released_by_state_change(old(self)@, id@, state),
            final(self)@.len() + (if released is Some {
                1nat
            } else {
                0nat
            }) == old(self)@.len(),
    {
        if state.is_terminal() {
            self.remove(id)
        } else {
            None
        }
    }
}

/// The sessions left after the connection of `id` reached `state`.
pub open spec fn after_state_change(
    entries: Map<Seq<char>, Connection>,
    id: Seq<char>,
    state: ConnectionState,
) -> Map<Seq<char>, Connection> {
    if state.terminal() {
        entries.remove(id)
    } else {
        entries
    }
}

/// The connection to close after the connection of `id` reached `state`.
pub open spec fn released_by_state_change(
    entries: Map<Seq<char>, Connection>,
    id: Seq<char>,
    state: ConnectionState,
) -> Option<Connection> {
    if state.terminal() {
        connection_of(entries, id)
    } else {
        None
    }
}

/// Registering a session under a fresh identifier adds exactly one session;
/// under an identifier that is live, the count stays and the latest
/// connection wins.
pub proof fn lemma_insert_counts(
    entries: Map<Seq<char>, Connection>,
    id: Seq<char>,
    connection: Connection,
)
    requires
        entries.dom().finite(),
    ensures
        entries.insert(id, connection).dom().finite(),
        !entries.contains_key(id) ==> entries.insert(id, connection).len() == entries.len() + 1,
        entries.contains_key(id) ==> entries.insert(id, connection).len() == entries.len(),
        connection_of(entries.insert(id, connection), id) == Some(connection),
{
    assert(entries.insert(id, connection).dom() =~= entries.dom().insert(id));
}

/// Removing a live session takes exactly one session away and yields its
/// connection; removing an identifier that is not registered, because it
/// never was or because it was removed before, yields nothing and leaves
/// every session in place.
pub proof fn lemma_remove_counts(entries: Map<Seq<char>, Connection>, id: Seq<char>)
    requires
        entries.dom().finite(),
    ensures
        entries.remove(id).dom().finite(),
        entries.contains_key(id) ==> entries.remove(id).len() + 1 == entries.len()
            && connection_of(entries, id) is Some,
        !entries.contains_key(id) ==> entries.remove(id) == entries && connection_of(entries, id)
            is None,
        connection_of(entries.remove(id), id) is None,
{
    assert(entries.remove(id).dom() =~= entries.dom().remove(id));
    if !entries.contains_key(id) {
        assert(entries.remove(id) =~= entries);
    }
}

/// A session is torn down at most once. When an explicit delete and a
/// terminal connection state both ask for the session `id`, in either order,
/// the first finds the connection and removes the session, the second finds
/// nothing and changes nothing: exactly one connection is released, and the
/// registry has exactly one session less.
pub proof fn lemma_teardown_at_most_once(
    entries: Map<Seq<char>, Connection>,
    id: Seq<char>,
    state: ConnectionState,
)
    requires
        entries.dom().finite(),
        entries.contains_key(id),
        state.terminal(),
    ensures
        ({
            let by_delete = entries.remove(id);
            let then_by_state = after_state_change(by_delete, id, state);
            &&& connection_of(entries, id) == Some(entries[id])
            &&& released_by_state_change(by_delete, id, state) is None
            &&& then_by_state == by_delete
            &&& then_by_state.len() + 1 == entries.len()
        }),
        ({
            let by_state = after_state_change(entries, id, state);
            let then_by_delete = by_state.remove(id);
            &&& released_by_state_change(entries, id, state) == Some(entries[id])
            &&& connection_of(by_state, id) is None
            &&& then_by_delete == by_state
            &&& then_by_delete.len() + 1 == entries.len()
        }),
{
    lemma_remove_counts(entries, id);
    lemma_remove_counts(entries.remove(id), id);
}

/// One step in the life of a registry.
pub enum RegistryEvent {
    /// An offer was completed: the connection was registered under the
    /// identifier.
    Offer(Seq<char>, Connection),
    /// A delete request named the identifier.
    Delete(Seq<char>),
    /// The connection of the identifier changed its state.
    StateChange(Seq<char>, ConnectionState),
}

/// The sessions that a registry, empty at first, holds after `events`.
pub open spec fn entries_after(events: Seq<RegistryEvent>) -> Map<Seq<char>, Connection>
    decreases events.len(),
{
    if events.len() == 0 {
        no_entries()
    } else {
        let before = entries_after(events.drop_last());
        match events.last() {
            RegistryEvent::Offer(id, connection) => before.insert(id, connection),
            RegistryEvent::Delete(id) => before.remove(id),
            RegistryEvent::StateChange(id, state) => after_state_change(before, id, state),
        }
    }
}

/// The number of sessions created during `events`: the offers completed
/// under an identifier that was not live.
pub open spec fn created_during(events: Seq<RegistryEvent>) -> nat
    decreases events.len(),
{
    if events.len() == 0 {
        0
    } else {
        let before = entries_after(events.drop_last());
        let created = created_during(events.drop_last());
        match events.last() {
            RegistryEvent::Offer(id, _) => if before.contains_key(id) {
                created
            } else {
                created + 1
            },
            _ => created,
        }
    }
}

/// The number of sessions torn down during `events`: the deletes and
/// state changes that released a connection.
pub open spec fn released_during(events: Seq<RegistryEvent>) -> nat
    decreases events.len(),
{
    if events.len() == 0 {
        0
    } else {
        let before = entries_after(events.drop_last());
        let released = released_during(events.drop_last());
        match events.last() {
            RegistryEvent::Offer(_, _) => released,
            RegistryEvent::Delete(id) => if connection_of(before, id) is Some {
                released + 1
            } else {
                released
            },
            RegistryEvent::StateChange(id, state) => if released_by_state_change(before, id, state)
                is Some {
                released + 1
            } else {
                released
            },
        }
    }
}

/// In every state of a registry, the sessions it holds are those that were
/// created and not yet torn down: their number is the number created less
/// the number released.
pub proof fn lemma_registry_size(events: Seq<RegistryEvent>)
    ensures
        entries_after(events).dom().finite(),
        entries_after(events).len() + released_during(events) == created_during(events),
    decreases events.len(),
{
    if events.len() > 0 {
        lemma_registry_size(events.drop_last());
        let before = entries_after(events.drop_last());
        match events.last() {
            RegistryEvent::Offer(id, connection) => {
                lemma_insert_counts(before, id, connection);
            },
            RegistryEvent::Delete(id) => {
                lemma_remove_counts(before, id);
            },
            RegistryEvent::StateChange(id, state) => {
                lemma_remove_counts(before, id);
            },
        }
    }
}

} // verus!

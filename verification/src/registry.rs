//! The registry of connected servers: a `dashmap::DashMap` from server name to connection number.

use dashmap::DashMap;
use vstd::prelude::*;

verus! {

/// `dashmap::DashMap`, whose entries are seen only through [`entries`].
#[verifier::external_type_specification]
#[verifier::external_body]
#[verifier::reject_recursive_types(K)]
#[verifier::reject_recursive_types(V)]
#[verifier::reject_recursive_types(S)]
pub struct ExDashMap<K, V, S>(dashmap::DashMap<K, V, S>);

/// The entries that a `DashMap` holds.
pub uninterp spec fn entries(map: dashmap::DashMap<String, usize>) -> Map<Seq<char>, usize>;

/// Calls `DashMap::new`: a map without entries.
#[verifier::external_body]
fn dashmap_new() -> (map: DashMap<String, usize>)
    ensures
        (entries(map) == Map::<Seq<char>, usize>::empty()),
{
    DashMap::new()
}

/// Calls `DashMap::insert`: the entry of that key is replaced or added and every other one is kept.
/// The exclusive borrow keeps everyone else from changing the map meanwhile.
#[verifier::external_body]
fn dashmap_insert(map: &mut DashMap<String, usize>, key: String, value: usize)
    ensures
        entries(*final(map)) == entries(*old(map)).insert(key@, value),
{
    map.insert(key, value);
}

/// Calls `DashMap::get` and copies the value out of the guard that it returns.
#[verifier::external_body]
fn dashmap_get(map: &DashMap<String, usize>, key: &str) -> (value: Option<usize>)
    ensures
        value == (if entries(*map).contains_key(key@) {
            Some(entries(*map)[key@])
        } else {
            None
        }),
{
    map.get(key).map(|entry| *entry.value())
}

/// Calls `DashMap::len`: the number of entries.
#[verifier::external_body]
fn dashmap_len(map: &DashMap<String, usize>) -> (len: usize)
    ensures
        len == entries(*map).len(),
{
    map.len()
}

/// The connected servers, each with the number of its connection.
pub struct Registry {
    connections: DashMap<String, usize>,
}

impl View for Registry {
    type V = Map<Seq<char>, usize>;

    closed spec fn view(&self) -> Map<Seq<char>, usize> {
        entries(self.connections)
    }
}

impl Registry {
    /// There are finitely many connected servers.
    pub open spec fn well_formed(&self) -> bool {
        self@.dom().finite()
    }

    /// Starts without any connected server.
    pub fn new() -> (registry: Registry)
        ensures
            registry.well_formed(),
            (registry@ == Map::<Seq<char>, usize>::empty()),
    {
        Registry { connections: dashmap_new() }
    }

    /// Connects a server, or connects it anew.
    pub fn insert(&mut self, server_id: String, connection: usize)
        ensures
            final(self)@ == old(self)@.insert(server_id@, connection),
            old(self).well_formed() ==> final(self).well_formed(),
    {
        dashmap_insert(&mut self.connections, server_id, connection);
    }

    /// The number of the connection to a server, where it is connected.
    pub fn get(&self, server_id: &str) -> (connection: Option<usize>)
        ensures
            connection == (if self@.contains_key(server_id@) {
                Some(self@[server_id@])
            } else {
                None
            }),
    {
        dashmap_get(&self.connections, server_id)
    }

    /// How many servers are connected.
    pub fn len(&self) -> (count: usize)
        ensures
            count == self@.len(),
    {
        dashmap_len(&self.connections)
    }
}

} // verus!

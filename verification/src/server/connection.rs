//! Who is online, and through which connection.

use crate::protocol::ServerMessage;
use dashmap::DashMap;
use vstd::prelude::*;
use vstd::string::*;

verus! {

use super::handlers::is_error;

#[verifier::external_type_specification]
#[verifier::external_body]
#[verifier::reject_recursive_types(K)]
#[verifier::reject_recursive_types(V)]
#[verifier::reject_recursive_types(S)]
pub struct ExDashMap<K, V, S>(dashmap::DashMap<K, V, S>);

/// A map from users to connections.
pub type Connections = DashMap<String, u64>;

/// The entries of a map of connections.
pub uninterp spec fn online_entries(map: Connections) -> Map<Seq<char>, u64>;

/// No entries.
pub open spec fn nobody() -> Map<Seq<char>, u64> {
    Map::empty()
}

/// `dashmap::DashMap::new`: a map without entries.
#[verifier::external_body]
fn new_map() -> (out: Connections)
    ensures
        online_entries(out) == nobody(),
{
    DashMap::new()
}

/// `dashmap::DashMap::insert`: puts a value in for a key, and returns the one
/// that was there.
#[verifier::external_body]
fn map_insert(map: &mut Connections, key: String, value: u64) -> (out: Option<u64>)
    ensures
        online_entries(*final(map)) == online_entries(*old(map)).insert(key@, value),
        out == (if online_entries(*old(map)).contains_key(key@) {
            Some(online_entries(*old(map))[key@])
        } else {
            None
        }),
{
    map.insert(key, value)
}

/// `dashmap::DashMap::remove_if`: takes the entry for a key out if its value is
/// the given one.
#[verifier::external_body]
fn map_remove_if(map: &mut Connections, key: &str, value: u64)
    ensures
        online_entries(*final(map)) == (if online_entries(*old(map)).contains_key(key@)
            && online_entries(*old(map))[key@] == value {
            online_entries(*old(map)).remove(key@)
        } else {
            online_entries(*old(map))
        }),
{
    map.remove_if(key, |_, stored| same_connection(*stored, value));
}

/// `dashmap::DashMap::get`: the value for a key.
#[verifier::external_body]
fn map_get(map: &Connections, key: &str) -> (out: Option<u64>)
    ensures
        out == (if online_entries(*map).contains_key(key@) {
            Some(online_entries(*map)[key@])
        } else {
            None
        }),
{
    map.get(key).map(|entry| *entry.value())
}

fn same_connection(a: u64, b: u64) -> (out: bool)
    ensures
        out == (a == b),
{
    a == b
}

/// Who is online, and through which connection. A user is online through one
/// connection at a time: a newer one replaces it.
pub struct ConnectionRegistry {
    online: Connections,
    next_id: u64,
}

impl View for ConnectionRegistry {
    type V = Map<Seq<char>, u64>;

    /// The connection of each user who is online.
    closed spec fn view(&self) -> Map<Seq<char>, u64> {
        online_entries(self.online)
    }
}

impl ConnectionRegistry {
    /// The identifier of the next connection.
    pub closed spec fn spec_next(&self) -> u64 {
        self.next_id
    }

    /// Nobody online.
    pub fn new() -> (out: Self)
        ensures
            out@ == nobody(),
            out.spec_next() == 1,
    {
        ConnectionRegistry { online: new_map(), next_id: 1 }
    }

    /// A user is online through a new connection. Returns its identifier, and
    /// that of the connection that it replaces, which is to be told so.
    pub fn insert(&mut self, user_id: String) -> (out: (u64, Option<u64>))
        ensures
            out.0 == old(self).spec_next(),
            final(self)@ == old(self)@.insert(user_id@, out.0),
            out.1 == (if old(self)@.contains_key(user_id@) {
                Some(old(self)@[user_id@])
            } else {
                None
            }),
            final(self).spec_next() == (if old(self).spec_next() == u64::MAX {
                0
            } else {
                old(self).spec_next() + 1
            }),
    {
        let conn_id: u64 = self.next_id;
        self.next_id = if conn_id == u64::MAX {
            0
        } else {
            conn_id + 1
        };
        let displaced = map_insert(&mut self.online, user_id, conn_id);
        (conn_id, displaced)
    }

    /// A connection has closed: its user is offline, unless a newer connection
    /// has replaced it.
    pub fn remove_if_match(&mut self, user_id: &str, conn_id: u64)
        ensures
            final(self)@ == (if old(self)@.contains_key(user_id@) && old(self)@[user_id@]
                == conn_id {
                old(self)@.remove(user_id@)
            } else {
                old(self)@
            }),
            final(self).spec_next() == old(self).spec_next(),
    {
        map_remove_if(&mut self.online, user_id, conn_id);
    }

    /// The connection through which a user is online.
    pub fn connection_of(&self, user_id: &str) -> (out: Option<u64>)
        ensures
            out == (if self@.contains_key(user_id@) {
                Some(self@[user_id@])
            } else {
                None
            }),
    {
        map_get(&self.online, user_id)
    }
}

/// What a connection is told when a newer one replaces it.
pub fn replaced_notice() -> (out: ServerMessage)
    ensures
        is_error(out, 409, "session replaced by new connection"@),
{
    ServerMessage::Error { code: 409, message: "session replaced by new connection".to_owned() }
}

/// A connection that was replaced cannot put its user offline when it closes.
pub proof fn law_replaced_connection_is_harmless(
    before: Map<Seq<char>, u64>,
    user: Seq<char>,
    old_conn: u64,
    new_conn: u64,
    after_close: Map<Seq<char>, u64>,
)
    requires
        old_conn != new_conn,
        ({
            let replaced = before.insert(user, old_conn).insert(user, new_conn);
            after_close == (if replaced.contains_key(user) && replaced[user] == old_conn {
                replaced.remove(user)
            } else {
                replaced
            })
        }),
    ensures
        after_close.contains_key(user),
        after_close[user] == new_conn,
{
}

} // verus!

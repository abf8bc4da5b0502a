//! The connection registry: which connections are open, and the state of each.

use crate::connection::{Connection, ConnectionView, Phase};
use std::collections::HashMap;
use vstd::prelude::*;

verus! {

/// The open client connections, each under its identifier. An identifier is
/// recorded from the moment its connection is accepted until the connection
/// is torn down, and never twice.
pub struct Registry {
    connections: HashMap<i32, Connection>,
}

impl View for Registry {
    type V = Map<i32, ConnectionView>;

    closed spec fn view(&self) -> Map<i32, ConnectionView> {
        Map::new(
            |id: i32| self.connections@.contains_key(id),
            |id: i32| self.connections@[id]@,
        )
    }
}

impl Registry {
    /// A registry without connections.
    pub fn new() -> (registry: Registry)
        ensures
            registry@ == Map::<i32, ConnectionView>::empty(),
    {
        let registry = Registry { connections: HashMap::new() };
        assert(registry@ =~= Map::<i32, ConnectionView>::empty());
        registry
    }

    /// The number of open connections.
    pub fn len(&self) -> (count: usize)
        ensures
            count == self@.len(),
            self@.dom().finite(),
    {
        proof {
            assert(self@.dom() =~= self.connections@.dom());
        }
        self.connections.len()
    }

    /// Tells whether `id` is the identifier of an open connection.
    pub fn contains(&self, id: i32) -> (present: bool)
        ensures
            present == self@.contains_key(id),
    {
        self.connections.contains_key(&id)
    }

    /// The phase of the connection `id`, if it is open.
    pub fn phase(&self, id: i32) -> (phase: Option<Phase>)
        ensures
            phase == (if self@.contains_key(id) {
                Some(self@[id].phase)
            } else {
                None
            }),
    {
        match self.connections.get(&id) {
            Some(connection) => Some(connection.phase),
            None => None,
        }
    }

    /// A copy of the bytes buffered for the connection `id`, if it is open.
    pub fn buffered(&self, id: i32) -> (bytes: Option<Vec<u8>>)
        ensures
            self@.contains_key(id) ==> bytes is Some && bytes->0@ == self@[id].buffer,
            !self@.contains_key(id) ==> bytes is None,
    {
        match self.connections.get(&id) {
            Some(connection) => {
                let mut bytes: Vec<u8> = Vec::new();
                crate::buffer::append_bytes(&mut bytes, connection.buffer.as_slice());
                assert(bytes@ == connection.buffer@);
                Some(bytes)
            },
            None => None,
        }
    }

    /// Records `id` as a connection that was just accepted. A record already
    /// kept under `id` is replaced.
    pub fn open(&mut self, id: i32)
        ensures
            final(self)@ == old(self)@.insert(id, ConnectionView::fresh()),
    {
        self.connections.insert(id, Connection::new());
        assert(self@ =~= old(self)@.insert(id, ConnectionView::fresh()));
    }

    /// Forgets the connection `id`, and tells whether it was recorded.
    pub fn close(&mut self, id: i32) -> (was_open: bool)
        ensures
            was_open == old(self)@.contains_key(id),
            final(self)@ == old(self)@.remove(id),
    {
        let removed = self.connections.remove(&id);
        assert(self@ =~= old(self)@.remove(id));
        removed.is_some()
    }

    /// Hands `data` to the connection `id`, if it is open, and returns the
    /// phase that the connection is in afterwards.
    pub fn absorb(&mut self, id: i32, data: &[u8]) -> (phase: Option<Phase>)
        ensures
            old(self)@.contains_key(id) ==> {
                &&& final(self)@ == old(self)@.insert(id, old(self)@[id].absorb(data@))
                &&& phase == Some(old(self)@[id].absorb(data@).phase)
            },
            !old(self)@.contains_key(id) ==> {
                &&& final(self)@ == old(self)@
                &&& phase is None
            },
    {
        match self.connections.remove(&id) {
            Some(connection) => {
                let mut connection = connection;
                connection.absorb(data);
                let phase = connection.phase;
                self.connections.insert(id, connection);
                assert(self@ =~= old(self)@.insert(id, old(self)@[id].absorb(data@)));
                Some(phase)
            },
            None => {
                assert(self@ =~= old(self)@);
                None
            },
        }
    }
}

} // verus!

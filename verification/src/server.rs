//! The executable server core.

use crate::connection::Phase;
use crate::machine::{teardown, ServerView, RECEIVE_LIMIT};
use crate::protocol::{Action, Event, Interest, Readiness};
use crate::registry::Registry;
use crate::response::response;
use vstd::prelude::*;

verus! {

/// The state of the event loop: the listener's identifier and the connection
/// registry. It is owned by the one thread that runs the loop.
pub struct Server {
    listener: i32,
    registry: Registry,
}

impl View for Server {
    type V = ServerView;

    closed spec fn view(&self) -> ServerView {
        ServerView { listener: self.listener, connections: self.registry@ }
    }
}

/// The operations that tear the connection `id` down, added to `actions`.
fn push_teardown(actions: &mut Vec<Action>, id: i32)
    ensures
        final(actions).deep_view() == old(actions).deep_view() + teardown(id),
{
    actions.push(Action::Deregister { id });
    actions.push(Action::Shutdown { id });
    actions.push(Action::Close { id });
    assert(actions.deep_view() =~= old(actions).deep_view() + teardown(id));
}

impl Server {
    /// A server for the listening socket `listener`, with the operations that
    /// start it.
    pub fn new(listener: i32) -> (started: (Server, Vec<Action>))
        ensures
            started.0@ == ServerView::start(listener).next,
            started.1.deep_view() == ServerView::start(listener).actions,
    {
        let server = Server { listener, registry: Registry::new() };
        let mut actions: Vec<Action> = Vec::new();
        actions.push(Action::Register { id: listener, interest: Interest::Readable, oneshot: false });
        assert(actions.deep_view() =~= ServerView::start(listener).actions);
        (server, actions)
    }

    /// The identifier of the listener.
    pub fn listener(&self) -> (id: i32)
        ensures
            id == self@.listener,
    {
        self.listener
    }

    /// The number of open connections.
    pub fn connections(&self) -> (count: usize)
        ensures
            count == self@.connections.len(),
            self@.connections.dom().finite(),
    {
        self.registry.len()
    }

    /// Tells whether `id` is the identifier of an open connection.
    pub fn is_open(&self, id: i32) -> (open: bool)
        ensures
            open == self@.connections.contains_key(id),
    {
        self.registry.contains(id)
    }

    /// The phase of the connection `id`, if it is open.
    pub fn phase(&self, id: i32) -> (phase: Option<Phase>)
        ensures
            phase == (if self@.connections.contains_key(id) {
                Some(self@.connections[id].phase)
            } else {
                None
            }),
    {
        self.registry.phase(id)
    }

    /// A copy of the bytes buffered for the connection `id`, if it is open.
    pub fn buffered(&self, id: i32) -> (bytes: Option<Vec<u8>>)
        ensures
            self@.connections.contains_key(id) ==> bytes is Some && bytes->0@
                == self@.connections[id].buffer,
            !self@.connections.contains_key(id) ==> bytes is None,
    {
        self.registry.buffered(id)
    }

    /// Takes the step for a report of the multiplexer: `events` for `id`.
    pub fn ready(&mut self, id: i32, events: Readiness) -> (actions: Vec<Action>)
        ensures
            final(self)@ == old(self)@.on_ready(id, events).next,
            actions.deep_view() == old(self)@.on_ready(id, events).actions,
    {
        let mut actions: Vec<Action> = Vec::new();
        if id == self.listener && events.is_only(Interest::Readable) {
            actions.push(Action::Accept { id });
            assert(actions.deep_view() =~= old(self)@.on_ready(id, events).actions);
            return actions;
        }
        match self.registry.phase(id) {
            Some(Phase::Reading) => {
                if events.is_only(Interest::Readable) {
                    actions.push(Action::Receive { id, limit: RECEIVE_LIMIT });
                }
            },
            Some(Phase::Writing) => {
                if events.is_only(Interest::Writable) {
                    actions.push(Action::Send { id, payload: response() });
                    push_teardown(&mut actions, id);
                    self.registry.close(id);
                }
            },
            None => {},
        }
        assert(actions.deep_view() =~= old(self)@.on_ready(id, events).actions);
        actions
    }

    /// Takes the step for a connection `id` that the listener produced.
    pub fn accepted(&mut self, id: i32) -> (actions: Vec<Action>)
        ensures
            final(self)@ == old(self)@.on_accepted(id).next,
            actions.deep_view() == old(self)@.on_accepted(id).actions,
    {
        self.registry.open(id);
        let mut actions: Vec<Action> = Vec::new();
        actions.push(Action::Register { id, interest: Interest::Readable, oneshot: true });
        assert(actions.deep_view() =~= old(self)@.on_accepted(id).actions);
        actions
    }

    /// Takes the step for `data` that a receive on `id` returned.
    pub fn received(&mut self, id: i32, data: &[u8]) -> (actions: Vec<Action>)
        ensures
            final(self)@ == old(self)@.on_received(id, data@).next,
            actions.deep_view() == old(self)@.on_received(id, data@).actions,
    {
        let mut actions: Vec<Action> = Vec::new();
        match self.registry.phase(id) {
            Some(Phase::Reading) => {
                if data.len() == 0 {
                    push_teardown(&mut actions, id);
                    self.registry.close(id);
                } else {
                    match self.registry.absorb(id, data) {
                        Some(Phase::Writing) => {
                            actions.push(Action::Modify { id, interest: Interest::Writable });
                        },
                        _ => {
                            actions.push(Action::Receive { id, limit: RECEIVE_LIMIT });
                        },
                    }
                }
            },
            _ => {},
        }
        assert(actions.deep_view() =~= old(self)@.on_received(id, data@).actions);
        actions
    }

    /// Takes the step for a receive on `id` that failed.
    pub fn receive_failed(&mut self, id: i32) -> (actions: Vec<Action>)
        ensures
            final(self)@ == old(self)@.on_receive_failed(id).next,
            actions.deep_view() == old(self)@.on_receive_failed(id).actions,
    {
        let mut actions: Vec<Action> = Vec::new();
        match self.registry.phase(id) {
            Some(Phase::Reading) => {
                push_teardown(&mut actions, id);
                self.registry.close(id);
            },
            _ => {},
        }
        assert(actions.deep_view() =~= old(self)@.on_receive_failed(id).actions);
        actions
    }

    /// Takes the step that `event` causes: the state changes as the model
    /// says, and the operations to perform are returned in order.
    pub fn step(&mut self, event: Event) -> (actions: Vec<Action>)
        ensures
            final(self)@ == old(self)@.step(event@).next,
            actions.deep_view() == old(self)@.step(event@).actions,
    {
        match event {
            Event::Ready { id, events } => self.ready(id, events),
            Event::Accepted { id } => self.accepted(id),
            Event::Received { id, data } => self.received(id, data.as_slice()),
            Event::ReceiveFailed { id } => self.receive_failed(id),
        }
    }
}

} // verus!

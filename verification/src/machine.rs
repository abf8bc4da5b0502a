//! The server as a mathematical state machine: a state, and for each event
//! the state that follows and the operations that are asked of the driver.
//! The executable [`Server`](crate::server::Server) is verified to take
//! exactly these steps.

use crate::buffer::BUFFER_LIMIT;
use crate::connection::{ConnectionView, Phase};
use crate::protocol::{ActionView, EventView, Interest, Readiness};
use crate::response::response_bytes;
use vstd::prelude::*;

verus! {

/// The most bytes that one receive asks for.
pub const RECEIVE_LIMIT: usize = 64;

/// The state of the server: the identifier of its listener and the registry
/// of open connections.
pub ghost struct ServerView {
    pub listener: i32,
    pub connections: Map<i32, ConnectionView>,
}

/// The outcome of one step.
pub ghost struct Step {
    /// The state after the step.
    pub next: ServerView,
    /// The operations to perform, in order.
    pub actions: Seq<ActionView>,
}

/// The operations that tear the connection `id` down: it leaves the
/// multiplexer, both directions of its socket are shut down, and its
/// descriptor is closed.
pub open spec fn teardown(id: i32) -> Seq<ActionView> {
    seq![ActionView::Deregister { id }, ActionView::Shutdown { id }, ActionView::Close { id }]
}

impl ServerView {
    /// The server at startup: no connection is open, and the listener is to be
    /// registered for readable interest, without oneshot, so that it goes on
    /// reporting new connections.
    pub open spec fn start(listener: i32) -> Step {
        Step {
            next: ServerView { listener, connections: Map::empty() },
            actions: seq![
                ActionView::Register { id: listener, interest: Interest::Readable, oneshot: false },
            ],
        }
    }

    /// A step that changes nothing and asks for nothing.
    pub open spec fn idle(self) -> Step {
        Step { next: self, actions: Seq::empty() }
    }

    /// The state with the connection `id` forgotten.
    pub open spec fn without(self, id: i32) -> ServerView {
        ServerView { listener: self.listener, connections: self.connections.remove(id) }
    }

    /// The state with `connection` recorded under `id`.
    pub open spec fn with(self, id: i32, connection: ConnectionView) -> ServerView {
        ServerView { listener: self.listener, connections: self.connections.insert(id, connection) }
    }

    /// The multiplexer reported `events` for `id`.
    ///
    /// A readable notification for the listener asks for one connection to be
    /// accepted. A notification for an open connection counts only if it is
    /// the one that the connection's phase waits for: a reading connection
    /// then receives, and a writing connection is sent the response once and
    /// torn down. Any other report is passed over.
    pub open spec fn on_ready(self, id: i32, events: Readiness) -> Step {
        if id == self.listener && events.only(Interest::Readable) {
            Step { next: self, actions: seq![ActionView::Accept { id }] }
        } else if self.connections.contains_key(id) && events.only(
            self.connections[id].phase.interest(),
        ) {
            match self.connections[id].phase {
                Phase::Reading => Step {
                    next: self,
                    actions: seq![ActionView::Receive { id, limit: RECEIVE_LIMIT }],
                },
                Phase::Writing => Step {
                    next: self.without(id),
                    actions: seq![ActionView::Send { id, payload: response_bytes() }] + teardown(
                        id,
                    ),
                },
            }
        } else {
            self.idle()
        }
    }

    /// The listener produced the connection `id`: it is recorded as reading,
    /// with nothing read, and registered for readable interest with oneshot.
    pub open spec fn on_accepted(self, id: i32) -> Step {
        Step {
            next: self.with(id, ConnectionView::fresh()),
            actions: seq![
                ActionView::Register { id, interest: Interest::Readable, oneshot: true },
            ],
        }
    }

    /// A receive on `id` returned `data`.
    ///
    /// For a reading connection, no bytes mean that the peer has closed, and
    /// the connection is torn down. Otherwise the bytes join those read
    /// before. With the terminator among them the connection turns to writing
    /// and is re-armed for writable interest; without it, the next receive is
    /// asked for. A report for any other identifier is passed over.
    pub open spec fn on_received(self, id: i32, data: Seq<u8>) -> Step {
        if self.connections.contains_key(id) && self.connections[id].phase == Phase::Reading {
            if data.len() == 0 {
                Step { next: self.without(id), actions: teardown(id) }
            } else {
                let connection = self.connections[id].absorb(data);
                Step {
                    next: self.with(id, connection),
                    actions: match connection.phase {
                        Phase::Writing => seq![
                            ActionView::Modify { id, interest: Interest::Writable },
                        ],
                        Phase::Reading => seq![ActionView::Receive { id, limit: RECEIVE_LIMIT }],
                    },
                }
            }
        } else {
            self.idle()
        }
    }

    /// A receive on `id` failed: a reading connection is torn down. A report
    /// for any other identifier is passed over.
    pub open spec fn on_receive_failed(self, id: i32) -> Step {
        if self.connections.contains_key(id) && self.connections[id].phase == Phase::Reading {
            Step { next: self.without(id), actions: teardown(id) }
        } else {
            self.idle()
        }
    }

    /// The step that `event` causes.
    pub open spec fn step(self, event: EventView) -> Step {
        match event {
            EventView::Ready { id, events } => self.on_ready(id, events),
            EventView::Accepted { id } => self.on_accepted(id),
            EventView::Received { id, data } => self.on_received(id, data),
            EventView::ReceiveFailed { id } => self.on_receive_failed(id),
        }
    }
}

/// A step concerns one identifier only.
///
/// Every operation that a step asks for is on the identifier that the event
/// is about, the listener stays the listener, and every connection under
/// another identifier stays in the registry, or out of it, exactly as it was.
/// So nothing that happens to one connection reaches another.
pub proof fn lemma_step_is_local(server: ServerView, event: EventView)
    ensures
        server.step(event).next.listener == server.listener,
        forall|k: int|
            0 <= k < server.step(event).actions.len() ==> (#[trigger] server.step(
                event,
            ).actions[k]).id() == event.id(),
        forall|other: i32|
            other != event.id() ==> {
                &&& #[trigger] server.step(event).next.connections.contains_key(other)
                    == server.connections.contains_key(other)
                &&& server.connections.contains_key(other) ==> server.step(
                    event,
                ).next.connections[other] == server.connections[other]
            },
{
}

/// Operations are asked for on live identifiers only.
///
/// Whatever a step asks for is on an identifier that is in the registry
/// before the step, or is reported by the event as newly accepted, or is the
/// listener. An identifier that is none of these causes no operation and no
/// change: once a connection is torn down, late reports about it are passed
/// over.
pub proof fn lemma_operations_need_a_record(server: ServerView, event: EventView)
    ensures
        server.step(event).actions.len() > 0 ==> {
            ||| server.connections.contains_key(event.id())
            ||| event is Accepted
            ||| event.id() == server.listener
        },
        !server.connections.contains_key(event.id()) && !(event is Accepted) && event.id()
            != server.listener ==> server.step(event) == server.idle(),
{
}

/// The listener goes on accepting.
///
/// No step changes what a readable notification for the listener leads to:
/// before and after any event, it asks for one connection to be accepted and
/// leaves the registry as it is.
pub proof fn lemma_listener_keeps_accepting(server: ServerView, event: EventView)
    ensures
        ({
            let next = server.step(event).next;
            next.on_ready(next.listener, Readiness { readable: true, writable: false, other: false })
                == Step { next, actions: seq![ActionView::Accept { id: server.listener }] }
        }),
{
}

/// A connection leaves the registry in the same step that closes its socket.
///
/// If the identifier of the event is in the registry before a step and not
/// after it, the step's operations end with the teardown of that identifier.
/// If it is still there after the step, or was never there, the step closes
/// nothing.
pub proof fn lemma_removal_is_teardown(server: ServerView, event: EventView)
    ensures
        ({
            let step = server.step(event);
            let id = event.id();
            let removed = server.connections.contains_key(id) && !step.next.connections.contains_key(
                id,
            );
            &&& removed ==> step.actions.len() >= 3 && step.actions.subrange(
                step.actions.len() - 3,
                step.actions.len() as int,
            ) == teardown(id)
            &&& !removed ==> forall|k: int|
                0 <= k < step.actions.len() ==> !(#[trigger] step.actions[k] is Close)
                    && !(step.actions[k] is Deregister) && !(step.actions[k] is Shutdown)
        }),
{
    let step = server.step(event);
    let id = event.id();
    if server.connections.contains_key(id) && !step.next.connections.contains_key(id) {
        assert(step.actions.subrange(step.actions.len() - 3, step.actions.len() as int)
            =~= teardown(id));
    }
}

/// The response is sent only when it is due.
///
/// A step asks for a send only if the event is a writable notification for a
/// connection whose request is complete. What is sent then is the fixed
/// payload, once, as the step's first operation, and the teardown of the
/// connection follows at once.
pub proof fn lemma_send_only_when_due(server: ServerView, event: EventView, k: int)
    requires
        0 <= k < server.step(event).actions.len(),
        server.step(event).actions[k] is Send,
    ensures
        event matches EventView::Ready { id, events } && events.only(Interest::Writable)
            && server.connections.contains_key(id) && server.connections[id].phase
            == Phase::Writing,
        k == 0,
        server.step(event).actions == seq![
            ActionView::Send { id: event.id(), payload: response_bytes() },
        ] + teardown(event.id()),
        !server.step(event).next.connections.contains_key(event.id()),
{
}

/// No step makes a connection read again once its request is complete, and
/// a connection enters the registry reading: the phases are passed through
/// in one order, from reading to writing to closed.
pub proof fn lemma_phases_advance(server: ServerView, event: EventView, id: i32)
    requires
        server.step(event).next.connections.contains_key(id),
        server.step(event).next.connections[id].phase == Phase::Reading,
        !(event matches EventView::Accepted { id: accepted } && accepted == id),
    ensures
        server.connections.contains_key(id),
        server.connections[id].phase == Phase::Reading,
{
}

/// The bound on buffered bytes is kept by every step.
pub proof fn lemma_step_keeps_buffers_bounded(server: ServerView, event: EventView)
    requires
        forall|id: i32| #[trigger]
            server.connections.contains_key(id) ==> server.connections[id].buffer.len()
                <= BUFFER_LIMIT,
    ensures
        forall|id: i32| #[trigger]
            server.step(event).next.connections.contains_key(id) ==> server.step(
                event,
            ).next.connections[id].buffer.len() <= BUFFER_LIMIT,
{
}

} // verus!

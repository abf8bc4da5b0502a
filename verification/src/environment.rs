//! A model of what the operating system holds for the server (the
//! multiplexer's registrations and the open sockets), and the proof that the
//! state machine and that model never fall out of step.

use crate::connection::Phase;
use crate::machine::{teardown, ServerView};
use crate::protocol::{ActionView, EventView, Interest};
use vstd::prelude::*;

verus! {

/// One registration with the multiplexer, as last set.
pub ghost struct Registration {
    pub interest: Interest,
    pub oneshot: bool,
}

/// The registration that a connection in `phase` is to have.
pub open spec fn registration_for(phase: Phase) -> Registration {
    Registration { interest: phase.interest(), oneshot: phase.oneshot() }
}

/// The registration that the listener is to have, for as long as the server
/// runs.
pub open spec fn listener_registration() -> Registration {
    Registration { interest: Interest::Readable, oneshot: false }
}

/// What the operating system holds: the identifiers registered with the
/// multiplexer, each with its registration, and the identifiers of the
/// sockets that are open.
pub ghost struct World {
    pub registered: Map<i32, Registration>,
    pub open: Set<i32>,
}

impl World {
    /// The world in which a server starts: its listener is open, and nothing
    /// is registered.
    pub open spec fn boot(listener: i32) -> World {
        World { registered: Map::empty(), open: Set::empty().insert(listener) }
    }

    /// The operation refers to what exists: a socket operation to an open
    /// socket, a registration to an open socket that is not yet registered,
    /// a change or removal of a registration to one that is there.
    pub open spec fn permits(self, action: ActionView) -> bool {
        match action {
            ActionView::Register { id, .. } => self.open.contains(id)
                && !self.registered.contains_key(id),
            ActionView::Modify { id, .. } => self.open.contains(id)
                && self.registered.contains_key(id),
            ActionView::Deregister { id } => self.open.contains(id)
                && self.registered.contains_key(id),
            ActionView::Accept { id } => self.open.contains(id),
            ActionView::Receive { id, .. } => self.open.contains(id),
            ActionView::Send { id, .. } => self.open.contains(id),
            ActionView::Shutdown { id } => self.open.contains(id),
            ActionView::Close { id } => self.open.contains(id),
        }
    }

    /// The world after the operation was performed. Closing a socket also
    /// ends its registration, if it still had one.
    pub open spec fn after(self, action: ActionView) -> World {
        match action {
            ActionView::Register { id, interest, oneshot } => World {
                registered: self.registered.insert(id, Registration { interest, oneshot }),
                open: self.open,
            },
            ActionView::Modify { id, interest } => World {
                registered: self.registered.insert(id, Registration { interest, oneshot: false }),
                open: self.open,
            },
            ActionView::Deregister { id } => World {
                registered: self.registered.remove(id),
                open: self.open,
            },
            ActionView::Close { id } => World {
                registered: self.registered.remove(id),
                open: self.open.remove(id),
            },
            _ => self,
        }
    }

    /// Each of `actions` is permitted in the world that the ones before it
    /// leave.
    pub open spec fn permits_all(self, actions: Seq<ActionView>) -> bool
        decreases actions.len(),
    {
        if actions.len() == 0 {
            true
        } else {
            self.permits(actions.first()) && self.after(actions.first()).permits_all(
                actions.drop_first(),
            )
        }
    }

    /// The world after `actions` were performed in order.
    pub open spec fn after_all(self, actions: Seq<ActionView>) -> World
        decreases actions.len(),
    {
        if actions.len() == 0 {
            self
        } else {
            self.after(actions.first()).after_all(actions.drop_first())
        }
    }

    /// The world can give rise to `event`: accepting yields an identifier
    /// that no open socket has.
    pub open spec fn can_report(self, event: EventView) -> bool {
        match event {
            EventView::Accepted { id } => !self.open.contains(id),
            _ => true,
        }
    }

    /// The world as `event` shows it to be: an accepted connection is an open
    /// socket.
    pub open spec fn observing(self, event: EventView) -> World {
        match event {
            EventView::Accepted { id } => World {
                registered: self.registered,
                open: self.open.insert(id),
            },
            _ => self,
        }
    }
}

/// The server's records and the world agree. The open sockets are the
/// listener and the connections in the registry, and no others; each of them
/// is registered; the listener's registration is the one it was started
/// with; and each connection's registration is the one that its phase calls
/// for.
pub open spec fn agrees(server: ServerView, world: World) -> bool {
    &&& !server.connections.contains_key(server.listener)
    &&& world.open == server.connections.dom().insert(server.listener)
    &&& world.registered.dom() == world.open
    &&& world.registered[server.listener] == listener_registration()
    &&& forall|id: i32| #[trigger]
        server.connections.contains_key(id) ==> world.registered[id] == registration_for(
            server.connections[id].phase,
        )
}

/// Performing one operation.
proof fn lemma_one(world: World, action: ActionView)
    ensures
        world.permits_all(seq![action]) == world.permits(action),
        world.after_all(seq![action]) == world.after(action),
{
    reveal_with_fuel(World::permits_all, 2);
    reveal_with_fuel(World::after_all, 2);
}

/// Performing a first operation and then the rest.
proof fn lemma_first_then_rest(world: World, first: ActionView, rest: Seq<ActionView>)
    ensures
        world.permits_all(seq![first] + rest) == (world.permits(first) && world.after(
            first,
        ).permits_all(rest)),
        world.after_all(seq![first] + rest) == world.after(first).after_all(rest),
{
    assert((seq![first] + rest).drop_first() =~= rest);
}

/// Tearing down a connection that is open and registered is permitted, and
/// leaves the world without it.
proof fn lemma_teardown(world: World, id: i32)
    requires
        world.open.contains(id),
        world.registered.contains_key(id),
    ensures
        world.permits_all(teardown(id)),
        world.after_all(teardown(id)) == (World {
            registered: world.registered.remove(id),
            open: world.open.remove(id),
        }),
{
    let deregistered = world.after(ActionView::Deregister { id });
    let closed = deregistered.after(ActionView::Shutdown { id }).after(ActionView::Close { id });
    assert(teardown(id) =~= seq![ActionView::Deregister { id }] + (seq![
        ActionView::Shutdown { id },
    ] + seq![ActionView::Close { id }]));
    lemma_first_then_rest(
        world,
        ActionView::Deregister { id },
        seq![ActionView::Shutdown { id }] + seq![ActionView::Close { id }],
    );
    lemma_first_then_rest(
        deregistered,
        ActionView::Shutdown { id },
        seq![ActionView::Close { id }],
    );
    lemma_one(deregistered, ActionView::Close { id });
    assert(closed.registered =~= world.registered.remove(id));
}

/// The server starts in agreement with the world: registering the listener
/// is permitted in the world it boots in, and once that is done the two agree.
pub proof fn lemma_start_agrees(listener: i32)
    ensures
        World::boot(listener).permits_all(ServerView::start(listener).actions),
        agrees(
            ServerView::start(listener).next,
            World::boot(listener).after_all(ServerView::start(listener).actions),
        ),
{
    let start = ServerView::start(listener);
    let register = ActionView::Register {
        id: listener,
        interest: Interest::Readable,
        oneshot: false,
    };
    assert(start.actions =~= seq![register]);
    lemma_one(World::boot(listener), register);
    let world = World::boot(listener).after(register);
    assert(world.open =~= start.next.connections.dom().insert(listener));
    assert(world.registered.dom() =~= world.open);
}

/// Every step keeps the server and the world in agreement.
///
/// If they agree, and the world can give rise to `event`, then each operation
/// that the step asks for is permitted at its turn, and once all are performed
/// the new state and the new world agree again. So for every identifier in the
/// registry the multiplexer holds the registration that its phase calls for,
/// the listener keeps its own registration, and no operation is ever asked
/// for on an identifier that is closed or was never open.
pub proof fn lemma_step_keeps_agreement(server: ServerView, world: World, event: EventView)
    requires
        agrees(server, world),
        world.can_report(event),
    ensures
        world.observing(event).permits_all(server.step(event).actions),
        agrees(
            server.step(event).next,
            world.observing(event).after_all(server.step(event).actions),
        ),
{
    let step = server.step(event);
    let seen = world.observing(event);
    let id = event.id();
    let reading = server.connections.contains_key(id) && server.connections[id].phase
        == Phase::Reading;
    let torn_down = match event {
        EventView::Ready { events, .. } => !(id == server.listener && events.only(
            Interest::Readable,
        )) && server.connections.contains_key(id) && server.connections[id].phase
            == Phase::Writing && events.only(Interest::Writable),
        EventView::Accepted { .. } => false,
        EventView::Received { data, .. } => reading && data.len() == 0,
        EventView::ReceiveFailed { .. } => reading,
    };
    if torn_down {
        lemma_teardown(seen, id);
        if event is Ready {
            let send = step.actions.first();
            lemma_first_then_rest(seen, send, teardown(id));
        }
        let world_after = seen.after_all(step.actions);
        assert(world_after.open =~= step.next.connections.dom().insert(server.listener));
        assert(world_after.registered.dom() =~= world_after.open);
    } else if step.actions.len() > 0 {
        let action = step.actions.first();
        assert(step.actions =~= seq![action]);
        lemma_one(seen, action);
        let world_after = seen.after(action);
        assert(world_after.open =~= step.next.connections.dom().insert(server.listener));
        assert(world_after.registered.dom() =~= world_after.open);
    }
}

/// The server after it took `events` in order.
pub open spec fn server_after(server: ServerView, events: Seq<EventView>) -> ServerView
    decreases events.len(),
{
    if events.len() == 0 {
        server
    } else {
        server_after(server, events.drop_last()).step(events.last()).next
    }
}

/// The world after it gave rise to `events` in order, and the operations that
/// the server asked for at each of them were performed.
pub open spec fn world_after(server: ServerView, world: World, events: Seq<EventView>) -> World
    decreases events.len(),
{
    if events.len() == 0 {
        world
    } else {
        world_after(server, world, events.drop_last()).observing(events.last()).after_all(
            server_after(server, events.drop_last()).step(events.last()).actions,
        )
    }
}

/// The world can give rise to each of `events` at its turn.
pub open spec fn can_report_all(server: ServerView, world: World, events: Seq<EventView>) -> bool
    decreases events.len(),
{
    events.len() == 0 || {
        &&& can_report_all(server, world, events.drop_last())
        &&& world_after(server, world, events.drop_last()).can_report(events.last())
    }
}

/// The server and the world agree for as long as the server runs.
///
/// From a state in which they agree, after any events that the world can give
/// rise to, they agree again; and at every event on the way, each operation
/// that the server asked for was permitted at its turn.
pub proof fn lemma_run_keeps_agreement(server: ServerView, world: World, events: Seq<EventView>)
    requires
        agrees(server, world),
        can_report_all(server, world, events),
    ensures
        agrees(server_after(server, events), world_after(server, world, events)),
        forall|k: int|
            0 <= k < events.len() ==> (#[trigger] world_after(
                server,
                world,
                events.take(k),
            )).observing(events[k]).permits_all(
                server_after(server, events.take(k)).step(events[k]).actions,
            ),
    decreases events.len(),
{
    if events.len() > 0 {
        let earlier = events.drop_last();
        lemma_run_keeps_agreement(server, world, earlier);
        lemma_step_keeps_agreement(
            server_after(server, earlier),
            world_after(server, world, earlier),
            events.last(),
        );
        assert forall|k: int| 0 <= k < events.len() implies (#[trigger] world_after(
            server,
            world,
            events.take(k),
        )).observing(events[k]).permits_all(
            server_after(server, events.take(k)).step(events[k]).actions,
        ) by {
            if k < earlier.len() {
                assert(events.take(k) =~= earlier.take(k));
                assert(events[k] == earlier[k]);
            } else {
                assert(events.take(k) =~= earlier);
            }
        }
    }
}

/// A server that was started agrees with the world at all times.
///
/// Start a server on a listener in the world it boots in, and let any events
/// follow that this world can give rise to. Then the records and the world
/// agree: every identifier in the registry is an open socket, registered for
/// what its phase calls for, and the listener is still registered as it was
/// at the start.
pub proof fn lemma_started_server_agrees(listener: i32, events: Seq<EventView>)
    requires
        can_report_all(
            ServerView::start(listener).next,
            World::boot(listener).after_all(ServerView::start(listener).actions),
            events,
        ),
    ensures
        agrees(
            server_after(ServerView::start(listener).next, events),
            world_after(
                ServerView::start(listener).next,
                World::boot(listener).after_all(ServerView::start(listener).actions),
                events,
            ),
        ),
{
    lemma_start_agrees(listener);
    lemma_run_keeps_agreement(
        ServerView::start(listener).next,
        World::boot(listener).after_all(ServerView::start(listener).actions),
        events,
    );
}

} // verus!

//! The vocabulary shared by the state machine and its driver: what the driver
//! reports ([`Event`]) and what it is asked to do ([`Action`]).

use vstd::prelude::*;

verus! {

/// What a registration with the multiplexer waits for.
#[derive(Clone, Copy, Debug, PartialEq, Eq, Structural)]
pub enum Interest {
    /// The socket has something to read (for the listener: a pending connection).
    Readable,
    /// The socket accepts bytes to send.
    Writable,
}

/// The conditions that the multiplexer reported for one identifier.
#[derive(Clone, Copy, Debug, PartialEq, Eq, Structural)]
pub struct Readiness {
    /// The readable condition was reported.
    pub readable: bool,
    /// The writable condition was reported.
    pub writable: bool,
    /// Some other condition was reported: an error, a hang-up, urgent data.
    pub other: bool,
}

impl Readiness {
    /// The report consists of the condition that `interest` waits for and of
    /// nothing else. A report that carries any further condition, or none at
    /// all, is a notification for neither interest.
    pub open spec fn only(self, interest: Interest) -> bool {
        match interest {
            Interest::Readable => self.readable && !self.writable && !self.other,
            Interest::Writable => self.writable && !self.readable && !self.other,
        }
    }

    /// The report that consists of the condition `interest` waits for.
    pub fn of(interest: Interest) -> (report: Readiness)
        ensures
            report.only(interest),
            report == (Readiness {
                readable: interest == Interest::Readable,
                writable: interest == Interest::Writable,
                other: false,
            }),
    {
        match interest {
            Interest::Readable => Readiness { readable: true, writable: false, other: false },
            Interest::Writable => Readiness { readable: false, writable: true, other: false },
        }
    }

    /// Tells whether the report is a notification for `interest`.
    pub fn is_only(&self, interest: Interest) -> (yes: bool)
        ensures
            yes == self.only(interest),
    {
        match interest {
            Interest::Readable => self.readable && !self.writable && !self.other,
            Interest::Writable => self.writable && !self.readable && !self.other,
        }
    }
}

/// Something the driver observed and hands to the state machine.
#[derive(Clone, Debug, PartialEq, Eq)]
pub enum Event {
    /// The multiplexer reported `events` for `id`.
    Ready { id: i32, events: Readiness },
    /// Accepting on the listener produced the connection `id`.
    Accepted { id: i32 },
    /// Receiving on `id` returned `data`; no bytes means that the peer has closed.
    Received { id: i32, data: Vec<u8> },
    /// Receiving on `id` failed.
    ReceiveFailed { id: i32 },
}

/// An [`Event`] as a mathematical value.
pub ghost enum EventView {
    Ready { id: i32, events: Readiness },
    Accepted { id: i32 },
    Received { id: i32, data: Seq<u8> },
    ReceiveFailed { id: i32 },
}

impl EventView {
    /// The identifier that the event is about.
    pub open spec fn id(self) -> i32 {
        match self {
            EventView::Ready { id, .. } => id,
            EventView::Accepted { id } => id,
            EventView::Received { id, .. } => id,
            EventView::ReceiveFailed { id } => id,
        }
    }
}

impl View for Event {
    type V = EventView;

    open spec fn view(&self) -> EventView {
        match *self {
            Event::Ready { id, events } => EventView::Ready { id, events },
            Event::Accepted { id } => EventView::Accepted { id },
            Event::Received { id, data } => EventView::Received { id, data: data@ },
            Event::ReceiveFailed { id } => EventView::ReceiveFailed { id },
        }
    }
}

/// One operation on the multiplexer or on a socket that the driver is to
/// perform. A step of the state machine answers with a list of them, to be
/// performed in order; a failure of any of them is fatal to the server.
#[derive(Clone, Debug, PartialEq, Eq)]
pub enum Action {
    /// Accept one pending connection on the listener `id` and report it as
    /// [`Event::Accepted`].
    Accept { id: i32 },
    /// Register `id` with the multiplexer for `interest`. With `oneshot`, at
    /// most one notification is delivered until the registration is modified.
    Register { id: i32, interest: Interest, oneshot: bool },
    /// Re-arm the registration of `id`, now for `interest` and without oneshot.
    Modify { id: i32, interest: Interest },
    /// Receive at most `limit` bytes on `id` and report them as
    /// [`Event::Received`], or the failure as [`Event::ReceiveFailed`].
    Receive { id: i32, limit: usize },
    /// Make one attempt to send `payload` on `id`. What the socket does not
    /// take at once is not sent again.
    Send { id: i32, payload: Vec<u8> },
    /// Remove `id` from the multiplexer.
    Deregister { id: i32 },
    /// Shut down both directions of the socket `id`.
    Shutdown { id: i32 },
    /// Close the descriptor `id`.
    Close { id: i32 },
}

/// An [`Action`] as a mathematical value.
pub ghost enum ActionView {
    Accept { id: i32 },
    Register { id: i32, interest: Interest, oneshot: bool },
    Modify { id: i32, interest: Interest },
    Receive { id: i32, limit: usize },
    Send { id: i32, payload: Seq<u8> },
    Deregister { id: i32 },
    Shutdown { id: i32 },
    Close { id: i32 },
}

impl ActionView {
    /// The identifier that the operation is performed on.
    pub open spec fn id(self) -> i32 {
        match self {
            ActionView::Accept { id } => id,
            ActionView::Register { id, .. } => id,
            ActionView::Modify { id, .. } => id,
            ActionView::Receive { id, .. } => id,
            ActionView::Send { id, .. } => id,
            ActionView::Deregister { id } => id,
            ActionView::Shutdown { id } => id,
            ActionView::Close { id } => id,
        }
    }
}

impl View for Action {
    type V = ActionView;

    open spec fn view(&self) -> ActionView {
        match *self {
            Action::Accept { id } => ActionView::Accept { id },
            Action::Register { id, interest, oneshot } => ActionView::Register {
                id,
                interest,
                oneshot,
            },
            Action::Modify { id, interest } => ActionView::Modify { id, interest },
            Action::Receive { id, limit } => ActionView::Receive { id, limit },
            Action::Send { id, payload } => ActionView::Send { id, payload: payload@ },
            Action::Deregister { id } => ActionView::Deregister { id },
            Action::Shutdown { id } => ActionView::Shutdown { id },
            Action::Close { id } => ActionView::Close { id },
        }
    }
}

impl DeepView for Action {
    type V = ActionView;

    open spec fn deep_view(&self) -> ActionView {
        self@
    }
}

impl Action {
    /// The identifier that the operation is performed on.
    pub fn id(&self) -> (id: i32)
        ensures
            id == self@.id(),
    {
        match self {
            Action::Accept { id } => *id,
            Action::Register { id, .. } => *id,
            Action::Modify { id, .. } => *id,
            Action::Receive { id, .. } => *id,
            Action::Send { id, .. } => *id,
            Action::Deregister { id } => *id,
            Action::Shutdown { id } => *id,
            Action::Close { id } => *id,
        }
    }
}

impl Event {
    /// The identifier that the event is about.
    pub fn id(&self) -> (id: i32)
        ensures
            id == self@.id(),
    {
        match self {
            Event::Ready { id, .. } => *id,
            Event::Accepted { id } => *id,
            Event::Received { id, .. } => *id,
            Event::ReceiveFailed { id } => *id,
        }
    }
}

} // verus!

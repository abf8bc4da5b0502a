//! One client connection: the phase it is in and the bytes read so far.

use crate::buffer::{append_bytes, keep_tail, retained, BUFFER_LIMIT};
use crate::protocol::Interest;
use crate::terminator::{contains_terminator, has_terminator};
use vstd::prelude::*;

verus! {

/// The step of the request/response exchange that a connection is at. A
/// connection that has been closed has no phase: it is no longer recorded.
#[derive(Clone, Copy, Debug, PartialEq, Eq, Structural)]
pub enum Phase {
    /// The request is being read; its terminator has not been seen.
    Reading,
    /// The request is complete and the response is due.
    Writing,
}

impl Phase {
    /// What a connection in this phase waits for.
    pub open spec fn interest(self) -> Interest {
        match self {
            Phase::Reading => Interest::Readable,
            Phase::Writing => Interest::Writable,
        }
    }

    /// Whether the registration made for this phase is oneshot: the wait for
    /// the request is, the wait for room to send the response is not.
    pub open spec fn oneshot(self) -> bool {
        self == Phase::Reading
    }
}

/// A [`Connection`] as a mathematical value.
pub ghost struct ConnectionView {
    pub phase: Phase,
    pub buffer: Seq<u8>,
}

impl ConnectionView {
    /// A connection as it is right after it was accepted.
    pub open spec fn fresh() -> ConnectionView {
        ConnectionView { phase: Phase::Reading, buffer: Seq::empty() }
    }

    /// The connection after `data` was received. While the request is read,
    /// the bytes join those read before, and the phase becomes `Writing` as
    /// soon as all of them together hold a terminator. Bytes that arrive
    /// later change nothing.
    pub open spec fn absorb(self, data: Seq<u8>) -> ConnectionView {
        match self.phase {
            Phase::Reading => ConnectionView {
                phase: if has_terminator(self.buffer + data) {
                    Phase::Writing
                } else {
                    Phase::Reading
                },
                buffer: retained(self.buffer, data),
            },
            Phase::Writing => self,
        }
    }
}

/// The state kept for one open client connection.
#[derive(Clone, Debug, PartialEq, Eq)]
pub struct Connection {
    /// The phase that the connection is in.
    pub phase: Phase,
    /// The latest bytes of the request, at most [`BUFFER_LIMIT`] once any
    /// were received.
    pub buffer: Vec<u8>,
}

impl View for Connection {
    type V = ConnectionView;

    open spec fn view(&self) -> ConnectionView {
        ConnectionView { phase: self.phase, buffer: self.buffer@ }
    }
}

impl Connection {
    /// A connection as it is right after it was accepted: reading, with
    /// nothing read.
    pub fn new() -> (connection: Connection)
        ensures
            connection@ == ConnectionView::fresh(),
    {
        Connection { phase: Phase::Reading, buffer: Vec::new() }
    }

    /// Takes in `data` as received from the peer.
    pub fn absorb(&mut self, data: &[u8])
        ensures
            final(self)@ == old(self)@.absorb(data@),
    {
        match self.phase {
            Phase::Writing => {},
            Phase::Reading => {
                let mut combined: Vec<u8> = Vec::new();
                append_bytes(&mut combined, self.buffer.as_slice());
                append_bytes(&mut combined, data);
                assert(combined@ == self.buffer@ + data@);
                if contains_terminator(combined.as_slice()) {
                    self.phase = Phase::Writing;
                }
                self.buffer = keep_tail(combined.as_slice(), BUFFER_LIMIT);
            },
        }
    }
}

} // verus!

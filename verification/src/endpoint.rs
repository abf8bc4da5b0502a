//! Where the server listens. The values are fixed: the server takes no
//! configuration.

use vstd::prelude::*;

verus! {

/// The address that the listener is bound to: the loopback address.
pub const ADDRESS: [u8; 4] = [127, 0, 0, 1];

/// The port that the listener is bound to.
pub const PORT: u16 = 8080;

/// The number of pending connections that the listener queues.
pub const BACKLOG: usize = 1024;

} // verus!

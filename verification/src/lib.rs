//! A single-threaded request/response server core, written as a state machine.
//!
//! One listening socket and many client connections share one readiness
//! multiplexer. This crate holds everything that is decided about them: which
//! connection is in which phase, what to ask of the operating system next, and
//! when a connection is torn down. It performs no system call itself. A driver
//! feeds it [`Event`]s (what the multiplexer and the sockets reported) and
//! carries out the [`Action`]s it answers with, in order.
//!
//! [`Server`] is the executable state machine. Every step it takes is
//! verified to be the step of the mathematical model in [`machine`]. Of that
//! model it is proved that a step concerns one connection only, that the
//! response is sent only to a complete request ([`machine`]), that the
//! server's records always match the registrations and open sockets that the
//! operating system holds ([`environment`]), and that a request is recognised
//! however it is split over receives ([`stream`]).

pub mod buffer;
pub mod connection;
pub mod endpoint;
pub mod environment;
pub mod machine;
pub mod protocol;
pub mod registry;
pub mod response;
pub mod server;
pub mod stream;
pub mod terminator;

pub use connection::{Connection, Phase};
pub use protocol::{Action, Event, Interest, Readiness};
pub use registry::Registry;
pub use server::Server;
pub use terminator::contains_terminator;

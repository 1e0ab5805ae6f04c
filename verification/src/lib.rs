//! A minimal TCP echo/add server, with its core logic verified.
//!
//! The library holds everything the server decides: how a decoded request is
//! answered, what the per-connection handler loop does with each read outcome
//! and what a whole session of reads produces, and how the accept loop and
//! the shared lifecycle state — the running flag and the connection registry —
//! behave. The sockets, the threads and the wire codec live outside the
//! library and feed it plain values.

pub mod handler;
pub mod lifecycle;
pub mod messages;
pub mod sessions;

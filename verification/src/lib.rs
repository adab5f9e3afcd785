//! Core of a per-connection streaming chat relay.
//!
//! One session bridges a duplex client connection to a token-emitting
//! inference backend. The session owns a conversation store (an ordered
//! log of turns), classifies inbound frames, serializes one generation at
//! a time, and forwards generated fragments to the client in order through
//! a FIFO outbound queue. All decision logic lives here, verified; the
//! surrounding I/O — sockets, the inference backend, the clock — is driven
//! from outside and handed in as plain values and events.

pub mod conversation;
pub mod frames;
pub mod router;
pub mod dispatcher;
pub mod worker;
pub mod session;
pub mod laws;

//! Connection lifecycle and handshake layer of the Loqui RPC protocol.
//!
//! The crate holds the decisions of both peers as verified state machines:
//! the client-side supervisor that reconnects with exponential backoff, and
//! the server-side acceptor, upgrade negotiation and frame dispatch. Sockets,
//! timers and tasks belong to the caller: each machine takes the outcome of
//! the last piece of outside work and answers with the next one to perform.

pub mod backoff;
pub mod dispatch;
pub mod error;
pub mod frames;
pub mod server;
pub mod supervisor;
pub mod supervisor_loop;
pub mod upgrade;

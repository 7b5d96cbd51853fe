//! Core of a minimal proxy client: a single outbound TCP session to one
//! fixed upstream endpoint, send/receive serialized by a transport lock,
//! and a background poller that probes for incoming data and can be
//! suspended through a pause gate.
//!
//! The socket calls themselves, the threads and the foreign-function
//! boundary live outside this crate; this crate holds the decisions:
//! address parsing, the lock and gate disciplines, the wait-for-all
//! receive discipline, the poller's step, and the mapping of every
//! outcome to the signed status codes the boundary returns.

pub mod addr;
pub mod errors;
pub mod gate;
pub mod poller;
pub mod session;
pub mod transport;

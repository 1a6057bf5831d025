//! Verified core of a multi-client chat relay.
//!
//! Clients authenticate, send messages over a persistent connection, and the
//! server fans each accepted message out to every other authenticated client
//! after it was persisted. This library holds what the relay decides and
//! computes; reading, writing, the database and the clock are left to the
//! program around it.
//!
//! - [`structs`], [`db`], [`errors`]: requests, responses, records, errors.
//! - [`wire`], [`codec`], [`envelope`]: the binary wire format and its frames.
//! - [`token`]: session tokens.
//! - [`registry`], [`broadcast`]: the table of live connections and who
//!   receives what one of them sent.
//! - [`handler`]: the state machine of a connection.
//! - [`store`]: what the store computes around its queries.
//! - [`command`], [`display`]: what a client reads from and shows to its user.
//! - [`laws`]: what holds of the relay as a whole.

pub mod broadcast;
pub mod codec;
pub mod command;
pub mod db;
pub mod display;
pub mod envelope;
pub mod errors;
pub mod handler;
pub mod laws;
mod random;
pub mod registry;
pub mod store;
pub mod structs;
pub mod token;
pub mod wire;

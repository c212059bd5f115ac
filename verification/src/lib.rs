//! The library of the explorer service: its typed queues, and what its
//! logging settings mean.
//!
//! The queues are bounded queues in memory and durable queues that live in a
//! remote key/value store. The durable queues never talk to the store
//! themselves: each operation yields the command to send and, given the
//! store's reply, the operation's outcome.

pub mod collections;
pub mod error;
pub mod logging;
pub mod settings;
pub mod text;

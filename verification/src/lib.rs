//! The verified core of a relay that takes Carbon plaintext metrics and
//! writes them to TimescaleDB in batches.
//!
//! The crate holds what the relay decides and computes: how a line is taken
//! apart ([`parse`]), when a worker hands its batch to the store ([`batch`],
//! [`worker`], with the laws of whole runs in [`trace`]), and which requests
//! carry a batch ([`write_to_db`]). Sockets, the database connection and
//! every use of floating point stay with the caller; of the queue between
//! the connection handlers and the workers the crate holds the receiving
//! end ([`queue`]).

pub mod batch;
pub mod parse;
pub mod queue;
pub mod text;
pub mod trace;
pub mod worker;
pub mod write_to_db;

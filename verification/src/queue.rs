//! The worker's end of the queue of lines.

use crossbeam_channel::{Receiver, RecvTimeoutError};
use vstd::prelude::*;

verus! {

/// The receiving end of a channel of `crossbeam_channel`. Nothing is known
/// of what it holds: other threads fill and empty it at any time.
#[verifier::external_type_specification]
#[verifier::external_body]
#[verifier::reject_recursive_types(T)]
pub struct ExReceiver<T>(crossbeam_channel::Receiver<T>);

/// What a wait on the queue brought.
pub enum Polled {
    /// A line came.
    Line(String),
    /// Nothing came for the whole wait.
    Timeout,
    /// The queue is empty and every sender is gone.
    Closed,
}

/// Waits on the queue for at most `wait_ms` milliseconds.
///
/// This calls `Receiver::recv_timeout` of `crossbeam_channel` and tells its
/// three results apart. Nothing is claimed of which of them comes back:
/// that depends on what the other threads do.
#[verifier::external_body]
pub(crate) fn recv_line(queue: &Receiver<String>, wait_ms: u64) -> Polled {
    match queue.recv_timeout(std::time::Duration::from_millis(wait_ms)) {
        Ok(line) => Polled::Line(line),
        Err(RecvTimeoutError::Timeout) => Polled::Timeout,
        Err(RecvTimeoutError::Disconnected) => Polled::Closed,
    }
}

} // verus!

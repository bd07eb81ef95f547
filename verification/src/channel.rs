use vstd::prelude::*;

use tokio::sync::mpsc::{Receiver, Sender};

verus! {

// Per-subscriber delivery queues and per-peer event channels are bounded
// multi-producer single-consumer queues from tokio. The hot path only ever
// uses the non-blocking producer side; the consumer side is handed out and
// drained by the surrounding tasks.
#[verifier::external_type_specification]
#[verifier::external_body]
#[verifier::reject_recursive_types(T)]
pub struct ExSender<T>(Sender<T>);

#[verifier::external_type_specification]
#[verifier::external_body]
#[verifier::reject_recursive_types(T)]
pub struct ExReceiver<T>(Receiver<T>);

/// The three outcomes of a non-blocking send onto a bounded queue.
#[derive(Debug, Clone, Copy, PartialEq, Eq, Structural)]
pub enum SendOutcome {
    /// The value was enqueued for the consumer.
    Sent,
    /// The queue was full; the value was discarded.
    Full,
    /// The consumer side is gone; the value was discarded.
    Closed,
}

/// Relies on tokio's bounded `mpsc::channel`: creates a queue of the given
/// capacity, returning the producer and consumer halves. The function panics
/// on capacity zero and on capacities above the most permits its semaphore
/// can hold, an eighth of `usize::MAX`; both inputs are excluded here.
#[verifier::external_body]
pub(crate) fn queue_channel<T>(capacity: usize) -> (r: (Sender<T>, Receiver<T>))
    requires
        1 <= capacity <= usize::MAX / 8,
{
    tokio::sync::mpsc::channel(capacity)
}

/// Relies on `Sender::try_send`: never blocks, and reports a full queue and
/// a closed (consumer dropped) queue as distinct outcomes. Which outcome
/// comes back depends on the concurrent consumer, so nothing more is stated.
#[verifier::external_body]
pub(crate) fn queue_try_send<T>(tx: &Sender<T>, value: T) -> (r: SendOutcome) {
    match tx.try_send(value) {
        Ok(()) => SendOutcome::Sent,
        Err(tokio::sync::mpsc::error::TrySendError::Full(_)) => SendOutcome::Full,
        Err(tokio::sync::mpsc::error::TrySendError::Closed(_)) => SendOutcome::Closed,
    }
}

} // verus!

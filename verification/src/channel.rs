//! Trusted boundary to the unbounded MPSC channels that carry control
//! packets and stream messages between tasks.  A sender is an opaque
//! send-only capability: nothing is promised of a send beyond whether
//! the receiving side was still there, and channel closure is the only
//! shutdown signal a task observes.
use vstd::prelude::*;

verus! {

/// Declares `futures::channel::mpsc::UnboundedSender` for use in
/// signatures and fields; values of it are opaque.
#[verifier::external_type_specification]
#[verifier::external_body]
#[verifier::reject_recursive_types(T)]
pub struct ExUnboundedSender<T>(futures::channel::mpsc::UnboundedSender<T>);

/// Declares `futures::channel::mpsc::UnboundedReceiver` for use in
/// signatures; values of it are opaque and are drained outside the
/// library.
#[verifier::external_type_specification]
#[verifier::external_body]
#[verifier::reject_recursive_types(T)]
pub struct ExUnboundedReceiver<T>(futures::channel::mpsc::UnboundedReceiver<T>);

/// Relies on `futures::channel::mpsc::unbounded`: a fresh channel pair.
#[verifier::external_body]
pub fn new_unbounded<T>() -> (
    futures::channel::mpsc::UnboundedSender<T>,
    futures::channel::mpsc::UnboundedReceiver<T>,
) {
    futures::channel::mpsc::unbounded()
}

/// Relies on `UnboundedSender::unbounded_send`: queues the message and
/// reports whether the receiver was still connected.
#[verifier::external_body]
pub fn channel_send<T>(tx: &futures::channel::mpsc::UnboundedSender<T>, msg: T) -> bool {
    tx.unbounded_send(msg).is_ok()
}

/// Relies on `UnboundedSender::close_channel`: wakes and ends the
/// receiving side.
#[verifier::external_body]
pub fn channel_close<T>(tx: &futures::channel::mpsc::UnboundedSender<T>) {
    tx.close_channel()
}

/// Relies on `UnboundedSender`'s `Clone`: another handle to the same
/// channel.
#[verifier::external_body]
pub fn clone_sender<T>(tx: &futures::channel::mpsc::UnboundedSender<T>) -> (
    futures::channel::mpsc::UnboundedSender<T>
) {
    tx.clone()
}

} // verus!

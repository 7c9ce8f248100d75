//! Trusted bindings to the flume channels the fabric routes through.
//!
//! What a channel holds is shared with other threads, so no contract here
//! can pin a queue's contents; each wrapper states only what holds of
//! every outcome, and the routing decisions around the calls are verified
//! separately.

use vstd::prelude::*;

verus! {

#[verifier::external_type_specification]
#[verifier::external_body]
#[verifier::reject_recursive_types(T)]
pub struct ExSender<T>(flume::Sender<T>);

#[verifier::external_type_specification]
#[verifier::external_body]
#[verifier::reject_recursive_types(T)]
pub struct ExReceiver<T>(flume::Receiver<T>);

#[verifier::external_type_specification]
#[verifier::external_body]
pub struct ExRecvError(flume::RecvError);

/// Relies on `flume::Sender::clone`: another handle to the same queue.
pub assume_specification<T>[ <flume::Sender<T> as Clone>::clone ](
    s: &flume::Sender<T>,
) -> flume::Sender<T>;

/// Relies on `flume::Receiver::clone`: another handle to the same queue.
pub assume_specification<T>[ <flume::Receiver<T> as Clone>::clone ](
    r: &flume::Receiver<T>,
) -> flume::Receiver<T>;

/// What a non-blocking enqueue attempt came to.
pub enum TrySendOutcome<T> {
    Sent,
    Full(T),
    Disconnected(T),
}

/// Relies on `flume::bounded`: a queue that holds at most `cap` messages
/// before senders block.
#[verifier::external_body]
pub(crate) fn channel_bounded<T>(cap: usize) -> (r: (flume::Sender<T>, flume::Receiver<T>)) {
    flume::bounded(cap)
}

/// Relies on `flume::Sender::send`: blocks while the queue is full and
/// fails only when every receiver is gone, handing the message back.
#[verifier::external_body]
pub(crate) fn channel_send<T>(s: &flume::Sender<T>, msg: T) -> (r: Result<(), T>)
    ensures
        match r {
            Ok(u) => u == (),
            Err(m) => m == msg,
        },
{
    s.send(msg).map_err(|e| e.0)
}

/// Relies on `flume::Sender::try_send`: never blocks; a full queue or a
/// closed one hands the message back.
#[verifier::external_body]
pub(crate) fn channel_try_send<T>(s: &flume::Sender<T>, msg: T) -> (r: TrySendOutcome<T>)
    ensures
        match r {
            TrySendOutcome::Sent => true,
            TrySendOutcome::Full(m) => m == msg,
            TrySendOutcome::Disconnected(m) => m == msg,
        },
{
    match s.try_send(msg) {
        Ok(()) => TrySendOutcome::Sent,
        Err(flume::TrySendError::Full(m)) => TrySendOutcome::Full(m),
        Err(flume::TrySendError::Disconnected(m)) => TrySendOutcome::Disconnected(m),
    }
}

/// Relies on `flume::Receiver::recv`: blocks for the next message and
/// returns nothing only when every sender is gone.
#[verifier::external_body]
pub(crate) fn channel_recv<T>(r: &flume::Receiver<T>) -> (res: Option<T>) {
    r.recv().ok()
}

/// Relies on `flume::Receiver::drain`: takes every message sitting in the
/// queue right now, without waiting for more.
#[verifier::external_body]
pub(crate) fn channel_drain<T>(r: &flume::Receiver<T>) -> (res: Vec<T>) {
    r.drain().collect()
}

} // verus!

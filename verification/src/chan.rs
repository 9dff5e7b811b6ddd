//! The standard library's channels and clock, as far as the pipeline uses
//! them. Nothing is known of what another thread sends or of what the clock
//! reads, so none of these calls promises anything about its result.

use std::sync::mpsc::{Receiver, RecvError, SendError, Sender, SyncSender};
use std::time::{Duration, Instant};
use vstd::prelude::*;

verus! {

/// `std::sync::mpsc::Receiver`: the receiving end of a queue.
#[verifier::external_type_specification]
#[verifier::external_body]
#[verifier::reject_recursive_types(T)]
pub struct ExReceiver<T>(Receiver<T>);

/// `std::sync::mpsc::Sender`: the sending end of an unbounded queue.
#[verifier::external_type_specification]
#[verifier::external_body]
#[verifier::reject_recursive_types(T)]
pub struct ExSender<T>(Sender<T>);

/// `std::sync::mpsc::SyncSender`: the sending end of a bounded queue.
#[verifier::external_type_specification]
#[verifier::external_body]
#[verifier::reject_recursive_types(T)]
pub struct ExSyncSender<T>(SyncSender<T>);

/// `std::sync::mpsc::RecvError`: nothing can be received any more.
#[verifier::external_type_specification]
#[verifier::external_body]
pub struct ExRecvError(RecvError);

/// `std::sync::mpsc::SendError`: a message that could not be sent.
#[verifier::external_type_specification]
#[verifier::external_body]
#[verifier::reject_recursive_types(T)]
pub struct ExSendError<T>(SendError<T>);

/// `std::time::Instant`: a reading of the clock.
#[verifier::external_type_specification]
#[verifier::external_body]
pub struct ExInstant(Instant);

/// `std::sync::mpsc::channel`: an unbounded queue and its two ends.
pub assume_specification<T>[ std::sync::mpsc::channel::<T> ]() -> (ends: (Sender<T>, Receiver<T>));

/// `std::sync::mpsc::sync_channel`: a queue that holds at most `bound`
/// messages, and its two ends.
pub assume_specification<T>[ std::sync::mpsc::sync_channel::<T> ](bound: usize) -> (ends: (
    SyncSender<T>,
    Receiver<T>,
));

/// `Receiver::recv`: waits for the next message; fails once every sender is
/// gone and the queue is empty.
pub assume_specification<T>[ Receiver::<T>::recv ](queue: &Receiver<T>) -> (got: Result<
    T,
    RecvError,
>);

/// `Sender::send`: queues a message; fails once the receiver is gone.
pub assume_specification<T>[ Sender::<T>::send ](queue: &Sender<T>, message: T) -> (sent: Result<
    (),
    SendError<T>,
>);

/// `SyncSender::send`: queues a message, waiting while the queue is full;
/// fails once the receiver is gone.
pub assume_specification<T>[ SyncSender::<T>::send ](queue: &SyncSender<T>, message: T) -> (sent:
    Result<(), SendError<T>>);

/// `Instant::now`: the clock's present reading.
pub assume_specification[ Instant::now ]() -> (now: Instant);

/// `Instant::elapsed`: the time that has passed since the instant.
pub assume_specification[ Instant::elapsed ](since: &Instant) -> (passed: Duration);

/// `Duration::as_nanos`: the whole nanoseconds of a duration.
pub assume_specification[ Duration::as_nanos ](span: &Duration) -> (nanos: u128);

} // verus!

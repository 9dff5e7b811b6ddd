//! Two-way links between threads: each end receives what the other sends.
//! What arrives, and whether the other end is still there, is up to the
//! other thread; the contracts here say what holds either way.

use std::sync::mpsc::{Receiver, RecvError, SendError, Sender, SyncSender};
use vstd::prelude::*;

verus! {

/// Why a value could not be borrowed over a link.
pub enum Lapse<E> {
    /// The other end is gone and nothing is left to receive.
    Closed,
    /// The closure gave up with this error; the value was not handed back.
    Refused(E),
    /// The other end went away before the value could be handed back.
    Unreturned,
}

/// What comes of lending a value that has arrived: the closure's error where
/// it gave up, and the value is then not sent back; its result where the
/// value went back; and a value that could not go back otherwise.
pub open spec fn lending_outcome<U, E>(answer: Result<U, E>, went_back: bool) -> Result<
    U,
    Lapse<E>,
> {
    match answer {
        Err(e) => Err(Lapse::Refused(e)),
        Ok(u) => if went_back {
            Ok(u)
        } else {
            Err(Lapse::Unreturned)
        },
    }
}

/// `closure` can return `answer` when it is lent some value.
pub open spec fn may_answer<T, U, E, F: FnOnce(&mut T) -> Result<U, E>>(
    closure: F,
    answer: Result<U, E>,
) -> bool {
    exists|lent: &mut T| closure.ensures((lent,), answer)
}

/// One end of an unbounded two-way link.
#[verifier::reject_recursive_types(T)]
pub struct RecDuplex<T> {
    pub recv: Receiver<T>,
    pub send: Sender<T>,
}

/// Makes an unbounded two-way link and hands out its two ends.
pub fn rec_duplex<T>() -> (RecDuplex<T>, RecDuplex<T>) {
    let first = std::sync::mpsc::channel();
    let second = std::sync::mpsc::channel();
    RecDuplex::cross(first, second)
}

impl<T: 'static + Send + Sync> RecDuplex<T> {
    /// Waits for the next value from the other end.
    pub fn recv(&self) -> Result<T, RecvError> {
        self.recv.recv()
    }

    /// Sends a value to the other end.
    pub fn send(&self, val: T) -> Result<(), SendError<T>> {
        self.send.send(val)
    }

    /// Receives a value, lets `closure` work on it, and sends it back. What
    /// comes of that is decided by `arrived`, `answered` and `returned`, in
    /// this order. Whatever the other end does, a result or an error of the
    /// closure that comes back is one that `closure` can return, and a value
    /// is reported as unreturned only after `closure` has answered.
    pub fn with_value<U, E>(&self, closure: impl FnOnce(&mut T) -> Result<U, E>) -> (out: Result<
        U,
        Lapse<E>,
    >)
        requires
            forall|v: &mut T| closure.requires((v,)),
        ensures
            out matches Ok(u) ==> may_answer(closure, Ok::<U, E>(u)),
            out matches Err(Lapse::Refused(e)) ==> may_answer(closure, Err::<U, E>(e)),
            out matches Err(Lapse::Unreturned) ==> exists|u: U|
                #[trigger] may_answer(closure, Ok::<U, E>(u)),
    {
        let mut val = match arrived(self.recv.recv()) {
            Ok(val) => val,
            Err(lapse) => {
                return Err(lapse);
            },
        };
        let got = closure(&mut val);
        assert(may_answer(closure, got));
        let res = match answered(got) {
            Ok(res) => res,
            Err(lapse) => {
                return Err(lapse);
            },
        };
        returned(res, self.send.send(val))
    }
}

/// One end of a bounded two-way link.
#[verifier::reject_recursive_types(T)]
pub struct SyncDuplex<T> {
    pub recv: Receiver<T>,
    pub send: SyncSender<T>,
}

/// Makes a two-way link whose queues hold at most `bound` values each, and
/// hands out its two ends.
pub fn sync_duplex<T>(bound: usize) -> (SyncDuplex<T>, SyncDuplex<T>) {
    let first = std::sync::mpsc::sync_channel(bound);
    let second = std::sync::mpsc::sync_channel(bound);
    SyncDuplex::cross(first, second)
}

impl<T: 'static + Send + Sync> SyncDuplex<T> {
    /// Waits for the next value from the other end.
    pub fn recv(&self) -> Result<T, RecvError> {
        self.recv.recv()
    }

    /// Sends a value to the other end, waiting while its queue is full.
    pub fn send(&self, val: T) -> Result<(), SendError<T>> {
        self.send.send(val)
    }

    /// Receives a value, lets `closure` work on it, and sends it back. What
    /// comes of that is decided by `arrived`, `answered` and `returned`, in
    /// this order. Whatever the other end does, a result or an error of the
    /// closure that comes back is one that `closure` can return, and a value
    /// is reported as unreturned only after `closure` has answered.
    pub fn use_value<U, E>(&self, closure: impl FnOnce(&mut T) -> Result<U, E>) -> (out: Result<
        U,
        Lapse<E>,
    >)
        requires
            forall|v: &mut T| closure.requires((v,)),
        ensures
            out matches Ok(u) ==> may_answer(closure, Ok::<U, E>(u)),
            out matches Err(Lapse::Refused(e)) ==> may_answer(closure, Err::<U, E>(e)),
            out matches Err(Lapse::Unreturned) ==> exists|u: U|
                #[trigger] may_answer(closure, Ok::<U, E>(u)),
    {
        let mut val = match arrived(self.recv.recv()) {
            Ok(val) => val,
            Err(lapse) => {
                return Err(lapse);
            },
        };
        let got = closure(&mut val);
        assert(may_answer(closure, got));
        let res = match answered(got) {
            Ok(res) => res,
            Err(lapse) => {
                return Err(lapse);
            },
        };
        returned(res, self.send.send(val))
    }
}

/// What became of the wait for a value: the value that came, or the link is
/// closed.
pub fn arrived<T, E>(got: Result<T, RecvError>) -> (out: Result<T, Lapse<E>>)
    ensures
        match (got, out) {
            (Ok(sent), Ok(value)) => value == sent,
            (Err(_), Err(Lapse::Closed)) => true,
            _ => false,
        },
{
    match got {
        Ok(value) => Ok(value),
        Err(_) => Err(Lapse::Closed),
    }
}

/// What the closure's answer means for the borrower: its result, with the
/// value still to go back, or its error, with nothing sent back.
pub fn answered<U, E>(answer: Result<U, E>) -> (out: Result<U, Lapse<E>>)
    ensures
        answer matches Ok(u) ==> out == Ok::<U, Lapse<E>>(u),
        answer is Err ==> out == lending_outcome(answer, true) && out == lending_outcome(
            answer,
            false,
        ),
{
    match answer {
        Ok(u) => Ok(u),
        Err(e) => Err(Lapse::Refused(e)),
    }
}

/// What became of a borrowed value on its way back: the closure's result
/// where it went back, and else the news that it could not.
pub fn returned<T, U, E>(res: U, sent: Result<(), SendError<T>>) -> (out: Result<U, Lapse<E>>)
    ensures
        out == lending_outcome(Ok::<U, E>(res), sent is Ok),
{
    match sent {
        Ok(()) => Ok(res),
        Err(_) => Err(Lapse::Unreturned),
    }
}

impl<T> RecDuplex<T> {
    /// Makes the two ends of a link out of two queues: the first end receives
    /// from the first queue and sends into the second, the second end
    /// receives from the second queue and sends into the first.
    pub fn cross(first: (Sender<T>, Receiver<T>), second: (Sender<T>, Receiver<T>)) -> (ends: (
        RecDuplex<T>,
        RecDuplex<T>,
    ))
        ensures
            ends.0.recv == first.1,
            ends.0.send == second.0,
            ends.1.recv == second.1,
            ends.1.send == first.0,
    {
        let (s1, r1) = first;
        let (s2, r2) = second;
        (RecDuplex { recv: r1, send: s2 }, RecDuplex { recv: r2, send: s1 })
    }
}

impl<T> SyncDuplex<T> {
    /// Makes the two ends of a link out of two bounded queues: the first end
    /// receives from the first queue and sends into the second, the second
    /// end receives from the second queue and sends into the first.
    pub fn cross(first: (SyncSender<T>, Receiver<T>), second: (SyncSender<T>, Receiver<T>)) -> (ends:
        (SyncDuplex<T>, SyncDuplex<T>))
        ensures
            ends.0.recv == first.1,
            ends.0.send == second.0,
            ends.1.recv == second.1,
            ends.1.send == first.0,
    {
        let (s1, r1) = first;
        let (s2, r2) = second;
        (SyncDuplex { recv: r1, send: s2 }, SyncDuplex { recv: r2, send: s1 })
    }
}

} // verus!

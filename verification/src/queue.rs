//! The two queues of a buffer pool, and the watch by which the producer
//! learns that the consumer has left.
//!
//! A queue is one of std's channels.  What a channel holds is shared with
//! another thread, so nothing here speaks of it.  What a handle handed to
//! its channel, and what its channel handed to it, is this thread's own
//! business: every [`Outlet`] and every [`Inlet`] keeps a log of it.
use vstd::prelude::*;
use std::sync::mpsc::{Receiver, Sender, TryRecvError};

verus! {

/// The sending half of one of std's channels.
#[verifier::external_type_specification]
#[verifier::external_body]
#[verifier::reject_recursive_types(T)]
pub struct ExSender<T>(Sender<T>);

/// The receiving half of one of std's channels.
#[verifier::external_type_specification]
#[verifier::external_body]
#[verifier::reject_recursive_types(T)]
pub struct ExReceiver<T>(Receiver<T>);

/// What travels on the pool's queues.
pub enum QueueItem<T> {
    /// A buffer.
    Item(T),
    /// The end that feeds this queue is gone.
    Done,
}

/// The queues of a pool.
#[derive(Clone, Copy, Debug, PartialEq, Eq, Structural)]
pub enum Lane {
    /// Buffers that the producer may fill.
    Free,
    /// Buffers that the consumer may drain.
    Ready,
}

/// A handle for sending on one queue.
#[verifier::reject_recursive_types(T)]
pub struct Outlet<T> {
    tx: Sender<QueueItem<T>>,
    lane: Lane,
    log: Ghost<Seq<QueueItem<T>>>,
}

/// The handle for receiving from one queue.
#[verifier::reject_recursive_types(T)]
pub struct Inlet<T> {
    rx: Receiver<QueueItem<T>>,
    lane: Lane,
    log: Ghost<Seq<Option<QueueItem<T>>>>,
}

/// Kept by the consumer's end for as long as it lives.  Nothing can be sent
/// through it; the watch is closed when it is dropped.
#[verifier::reject_recursive_types(T)]
pub struct Beacon<T> {
    tx: Sender<QueueItem<T>>,
}

/// Tells the producer's end whether the consumer's end still lives.
#[verifier::reject_recursive_types(T)]
pub struct Watch<T> {
    rx: Receiver<QueueItem<T>>,
}

/// `std::sync::mpsc::channel`: a fresh channel and its two halves.
#[verifier::external_body]
fn open_channel<T>() -> (ends: (Sender<QueueItem<T>>, Receiver<QueueItem<T>>)) {
    std::sync::mpsc::channel()
}

/// `Sender::clone`: another sending half of the same channel.
#[verifier::external_body]
fn share_sender<T>(tx: &Sender<QueueItem<T>>) -> (shared: Sender<QueueItem<T>>) {
    tx.clone()
}

/// `Sender::send`: queues `item` without blocking and never panics.
/// Whether the item was taken depends on whether the receiving half still
/// exists, so nothing is claimed of the answer.
#[verifier::external_body]
fn send_on<T>(tx: &Sender<QueueItem<T>>, item: QueueItem<T>) -> (delivered: bool)
    opens_invariants none
    no_unwind
{
    tx.send(item).is_ok()
}

/// `Receiver::recv`: blocks until an item arrives or every sending half is
/// gone, in which case it gives `None`.  What arrives is up to the other
/// thread, so nothing is claimed of it.
#[verifier::external_body]
fn recv_from<T>(rx: &Receiver<QueueItem<T>>) -> (received: Option<QueueItem<T>>) {
    rx.recv().ok()
}

/// `Receiver::try_recv`: tells, without blocking, whether the channel is
/// empty and every sending half is gone.  That is up to the other thread,
/// so nothing is claimed of the answer.
#[verifier::external_body]
fn is_disconnected<T>(rx: &Receiver<QueueItem<T>>) -> (closed: bool) {
    matches!(rx.try_recv(), Err(TryRecvError::Disconnected))
}

/// A fresh queue for `lane`, with nothing sent on it or drawn from it yet.
pub(crate) fn open<T>(lane: Lane) -> (ends: (Outlet<T>, Inlet<T>))
    ensures
        ends.0.lane() == lane,
        ends.0.sent() == Seq::<QueueItem<T>>::empty(),
        ends.1.lane() == lane,
        ends.1.drawn() == Seq::<Option<QueueItem<T>>>::empty(),
{
    let (tx, rx) = open_channel::<T>();
    (Outlet { tx, lane, log: Ghost(Seq::empty()) }, Inlet { rx, lane, log: Ghost(Seq::empty()) })
}

/// A fresh watch and the beacon that keeps it open.
pub(crate) fn open_watch<T>() -> (ends: (Beacon<T>, Watch<T>)) {
    let (tx, rx) = open_channel::<T>();
    (Beacon { tx }, Watch { rx })
}

impl<T> Outlet<T> {
    /// The queue that this handle sends on.
    pub closed spec fn lane(&self) -> Lane {
        self.lane
    }

    /// What this handle was handed to send, first to last.
    pub closed spec fn sent(&self) -> Seq<QueueItem<T>> {
        self.log@
    }

    /// Another handle for the same queue, which was handed nothing yet.
    pub(crate) fn share(&self) -> (shared: Outlet<T>)
        ensures
            shared.lane() == self.lane(),
            shared.sent() == Seq::<QueueItem<T>>::empty(),
    {
        Outlet { tx: share_sender(&self.tx), lane: self.lane, log: Ghost(Seq::empty()) }
    }

    /// Hands `item` to the queue and enters it in the log.  Tells whether
    /// the queue took it: it does not where the receiving end is gone.
    pub(crate) fn send(&mut self, item: QueueItem<T>) -> (delivered: bool)
        ensures
            final(self).lane() == old(self).lane(),
            final(self).sent() == old(self).sent().push(item),
        opens_invariants none
        no_unwind
    {
        let ghost handed = item;
        let delivered = send_on(&self.tx, item);
        self.log = Ghost(self.log@.push(handed));
        delivered
    }
}

impl<T> Inlet<T> {
    /// The queue that this handle receives from.
    pub closed spec fn lane(&self) -> Lane {
        self.lane
    }

    /// What the queue handed to this handle, first to last; `None` stands
    /// for finding the queue closed.
    pub closed spec fn drawn(&self) -> Seq<Option<QueueItem<T>>> {
        self.log@
    }

    /// Waits for the queue's next item and enters it in the log.  Gives
    /// `None` where the queue is empty and every sending handle is gone.
    pub(crate) fn recv(&mut self) -> (received: Option<QueueItem<T>>)
        ensures
            final(self).lane() == old(self).lane(),
            final(self).drawn() == old(self).drawn().push(received),
    {
        let received = recv_from(&self.rx);
        self.log = Ghost(self.log@.push(received));
        received
    }
}

impl<T> Watch<T> {
    /// Whether the beacon is gone.
    pub(crate) fn closed(&self) -> (closed: bool) {
        is_disconnected(&self.rx)
    }
}

} // verus!

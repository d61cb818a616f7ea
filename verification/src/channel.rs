//! The queues that connect the proxy to its clients, to the transport and to
//! the status sink. They are crossbeam channels; what this file states of
//! them is taken on trust from crossbeam's documentation and source.

use crate::proto::Packet;
use crossbeam::channel::{Receiver, Select, Sender};
use vstd::prelude::*;

verus! {

#[verifier::external_type_specification]
#[verifier::external_body]
#[verifier::reject_recursive_types(T)]
pub struct ExSender<T>(Sender<T>);

#[verifier::external_type_specification]
#[verifier::external_body]
#[verifier::reject_recursive_types(T)]
pub struct ExReceiver<T>(Receiver<T>);

#[verifier::external_type_specification]
#[verifier::external_body]
pub struct ExSelect<'a>(Select<'a>);

/// The largest bound this library gives a queue.
pub const MAX_QUEUE_BOUND: usize = 65536;

/// Why a message could not be queued without waiting. Either way the
/// message comes back.
#[derive(Debug, PartialEq, Eq)]
pub enum TrySendError<T> {
    /// The queue is at its bound.
    Full(T),
    /// The receiving end is gone.
    Disconnected(T),
}

impl<T> TrySendError<T> {
    /// The message that was not queued.
    pub open spec fn message(self) -> T {
        match self {
            TrySendError::Full(m) => m,
            TrySendError::Disconnected(m) => m,
        }
    }

    /// Unwraps the message that was not queued.
    pub fn into_inner(self) -> (m: T)
        ensures
            m == self.message(),
    {
        match self {
            TrySendError::Full(m) => m,
            TrySendError::Disconnected(m) => m,
        }
    }
}

/// Why no message could be taken from a queue without waiting.
#[derive(Clone, Copy, Debug, PartialEq, Eq)]
pub enum TryRecvError {
    /// Nothing is queued right now.
    Empty,
    /// Nothing is queued and every sending end is gone.
    Disconnected,
}

/// Number of operations registered with a selector so far.
pub uninterp spec fn select_len(sel: Select<'_>) -> nat;

/// `crossbeam::channel::bounded`: a queue that holds at most `cap`
/// messages. Nothing is claimed of the two ends.
#[verifier::external_body]
pub(crate) fn bounded<T>(cap: usize) -> (ends: (Sender<T>, Receiver<T>))
    requires
        cap <= MAX_QUEUE_BOUND,
{
    crossbeam::channel::bounded(cap)
}

/// The bound with which the queue behind a sending end of packets was
/// made; `None` for a queue without bound.
pub uninterp spec fn sender_bound(tx: Sender<Packet>) -> Option<usize>;

/// The bound with which the queue behind a receiving end of packets was
/// made; `None` for a queue without bound.
pub uninterp spec fn receiver_bound(rx: Receiver<Packet>) -> Option<usize>;

/// `Sender::capacity`: the bound that the queue was made with. It is
/// fixed when the queue is made and the same for every call.
#[verifier::external_body]
pub(crate) fn sender_capacity(tx: &Sender<Packet>) -> (r: Option<usize>)
    ensures
        r == sender_bound(*tx),
{
    tx.capacity()
}

/// `Receiver::capacity`: the bound that the queue was made with. It is
/// fixed when the queue is made and the same for every call.
#[verifier::external_body]
pub(crate) fn receiver_capacity(rx: &Receiver<Packet>) -> (r: Option<usize>)
    ensures
        r == receiver_bound(*rx),
{
    rx.capacity()
}

/// `Sender::try_send`: queues `msg` or refuses at once. Whether it queues
/// depends on the other end; a refusal hands the same message back.
#[verifier::external_body]
pub(crate) fn try_send<T>(tx: &Sender<T>, msg: T) -> (r: Result<(), TrySendError<T>>)
    ensures
        r matches Err(e) ==> e.message() == msg,
{
    match tx.try_send(msg) {
        Ok(()) => Ok(()),
        Err(crossbeam::channel::TrySendError::Full(m)) => Err(TrySendError::Full(m)),
        Err(crossbeam::channel::TrySendError::Disconnected(m)) => Err(
            TrySendError::Disconnected(m),
        ),
    }
}

/// `Sender::send`: queues `msg`, waiting while the queue is at its bound.
/// It fails only when the receiving end is gone, and then hands the same
/// message back.
#[verifier::external_body]
pub(crate) fn send<T>(tx: &Sender<T>, msg: T) -> (r: Result<(), T>)
    ensures
        r matches Err(m) ==> m == msg,
{
    match tx.send(msg) {
        Ok(()) => Ok(()),
        Err(crossbeam::channel::SendError(m)) => Err(m),
    }
}

/// `Receiver::try_recv`: takes the next message if one is queued. Nothing
/// is claimed of what comes out: that is up to the sending end.
#[verifier::external_body]
pub(crate) fn try_recv<T>(rx: &Receiver<T>) -> (r: Result<T, TryRecvError>) {
    match rx.try_recv() {
        Ok(m) => Ok(m),
        Err(crossbeam::channel::TryRecvError::Empty) => Err(TryRecvError::Empty),
        Err(crossbeam::channel::TryRecvError::Disconnected) => Err(TryRecvError::Disconnected),
    }
}

/// `Select::new`: a selector with no operation registered.
#[verifier::external_body]
pub(crate) fn select_new<'a>() -> (sel: Select<'a>)
    ensures
        select_len(sel) == 0,
{
    Select::new()
}

/// `Select::recv`: registers a receive on `rx`. Operations are numbered in
/// the order in which they are registered, from 0.
#[verifier::external_body]
pub(crate) fn select_recv<'a, T>(sel: &mut Select<'a>, rx: &'a Receiver<T>) -> (i: usize)
    requires
        select_len(*old(sel)) < usize::MAX,
    ensures
        i == select_len(*old(sel)),
        select_len(*final(sel)) == select_len(*old(sel)) + 1,
{
    sel.recv(rx)
}

/// The longest wait this library asks of a selector: one day.
pub const MAX_SELECT_WAIT: u64 = 86_400_000_000_000;

/// `Select::ready_timeout`: waits up to `timeout_ns` nanoseconds for one of
/// the registered operations to be ready, and gives its number. Which one
/// it names, and whether any, depends on the other ends. With nothing
/// registered crossbeam may panic, and with a wait that reaches beyond the
/// range of the clock it waits without limit: both are ruled out.
#[verifier::external_body]
pub(crate) fn select_ready_timeout(sel: &mut Select<'_>, timeout_ns: u64) -> (r: Option<usize>)
    requires
        select_len(*old(sel)) > 0,
        timeout_ns <= MAX_SELECT_WAIT,
    ensures
        select_len(*final(sel)) == select_len(*old(sel)),
        r matches Some(i) ==> i < select_len(*old(sel)),
{
    sel.ready_timeout(std::time::Duration::from_nanos(timeout_ns)).ok()
}

} // verus!

//! The in-memory queues the bus is built on: std's mpsc channels, with a
//! ghost identity per queue and a ghost record of what each sending handle
//! has queued.
use vstd::prelude::*;

verus! {

#[verifier::external_type_specification]
#[verifier::external_body]
#[verifier::reject_recursive_types(T)]
pub struct ExSender<T>(std::sync::mpsc::Sender<T>);

#[verifier::external_type_specification]
#[verifier::external_body]
#[verifier::reject_recursive_types(T)]
pub struct ExReceiver<T>(std::sync::mpsc::Receiver<T>);

#[verifier::external_type_specification]
#[verifier::external_body]
pub struct ExRecvError(std::sync::mpsc::RecvError);

/// Relies on `Clone` for `std::sync::mpsc::RecvError`, a unit struct.
pub assume_specification[ <std::sync::mpsc::RecvError as Clone>::clone ](
    e: &std::sync::mpsc::RecvError,
) -> (r: std::sync::mpsc::RecvError)
    ensures
        r == *e,
;

/// A sending handle of a queue.
#[verifier::reject_recursive_types(T)]
pub struct Outbox<T> {
    sender: std::sync::mpsc::Sender<T>,
    queue: Ghost<int>,
    sent: Ghost<Seq<T>>,
    gone: Ghost<bool>,
}

/// The receiving end of a queue.
#[verifier::reject_recursive_types(T)]
pub struct Inbox<T> {
    receiver: std::sync::mpsc::Receiver<T>,
    queue: Ghost<int>,
}

impl<T> Outbox<T> {
    /// Which queue this handle feeds.
    pub closed spec fn queue(&self) -> int {
        self.queue@
    }

    /// The values queued through this handle, in order.
    pub closed spec fn sent(&self) -> Seq<T> {
        self.sent@
    }

    /// Whether a send through this handle has failed: the receiving end is
    /// then gone for good.
    pub closed spec fn gone(&self) -> bool {
        self.gone@
    }

    /// Queues `value`; `false` when the receiving end has been dropped.
    pub fn send(&mut self, value: T) -> (queued: bool)
        ensures
            final(self).queue() == old(self).queue(),
            queued ==> !old(self).gone() && !final(self).gone() && final(self).sent() == old(
                self,
            ).sent().push(value),
            !queued ==> final(self).gone() && final(self).sent() == old(self).sent(),
    {
        deliver(self, value)
    }
}

impl<T> Inbox<T> {
    /// Which queue this end reads.
    pub closed spec fn queue(&self) -> int {
        self.queue@
    }

    /// The std receiver, to wait on.
    pub fn receiver(&self) -> &std::sync::mpsc::Receiver<T> {
        &self.receiver
    }
}

/// Relies on `std::sync::mpsc::channel`: a fresh, empty, unbounded queue
/// with its sending and receiving ends.
#[verifier::external_body]
pub fn open_queue<T>() -> (ends: (Outbox<T>, Inbox<T>))
    ensures
        ends.0.queue() == ends.1.queue(),
        ends.0.sent() == Seq::<T>::empty(),
        !ends.0.gone(),
{
    let (sender, receiver) = std::sync::mpsc::channel();
    let out = Outbox { sender, queue: Ghost(0), sent: Ghost(Seq::empty()), gone: Ghost(false) };
    (out, Inbox { receiver, queue: Ghost(0) })
}

/// Relies on `std::sync::mpsc::Sender::clone`: another sending handle of
/// the same queue.
#[verifier::external_body]
pub fn share<T>(out: &Outbox<T>) -> (other: Outbox<T>)
    ensures
        other.queue() == out.queue(),
        other.sent() == Seq::<T>::empty(),
        !other.gone(),
{
    Outbox { sender: out.sender.clone(), queue: Ghost(0), sent: Ghost(Seq::empty()), gone: Ghost(false) }
}

/// Relies on `std::sync::mpsc::Sender::send`: the value is queued while the
/// receiving end is alive; once it is dropped, this and every later send
/// fail.
#[verifier::external_body]
fn deliver<T>(out: &mut Outbox<T>, value: T) -> (queued: bool)
    ensures
        final(out).queue() == old(out).queue(),
        queued ==> !old(out).gone() && !final(out).gone() && final(out).sent() == old(out).sent().push(
            value,
        ),
        !queued ==> final(out).gone() && final(out).sent() == old(out).sent(),
{
    out.sender.send(value).is_ok()
}

} // verus!

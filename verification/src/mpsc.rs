//! A multi-producer, single-consumer queue that lets the consumer take a
//! random element.

use vstd::prelude::*;
use crate::rand::GlobalRng;
use crate::time::Duration;

verus! {

/// An error returned from [`Channel::send`]: the receiver is gone; the
/// value is handed back.
#[derive(Debug)]
pub struct SendError<T>(pub T);

/// The reasons why [`Channel::try_recv_random`] could not return data.
#[derive(Clone, Copy, Debug, PartialEq, Eq, Structural)]
pub enum TryRecvError {
    /// The queue is empty, but senders remain.
    Empty,
    /// The queue is empty and every sender is gone.
    Disconnected,
}

/// The shared state of a channel: the queue, the number of live senders,
/// and whether the receiver is still alive.
pub struct Channel<T> {
    queue: Vec<T>,
    senders: usize,
    receiver_alive: bool,
}

impl<T> Channel<T> {
    /// The queued values.
    pub closed spec fn spec_queue(&self) -> Seq<T> {
        self.queue@
    }

    /// The number of live senders.
    pub closed spec fn spec_senders(&self) -> nat {
        self.senders as nat
    }

    /// Whether the receiver is alive.
    pub closed spec fn spec_receiver_alive(&self) -> bool {
        self.receiver_alive
    }

    /// Creates a new channel with one sender and its receiver.
    pub fn channel() -> (c: Channel<T>)
        ensures
            c.spec_queue() == Seq::<T>::empty(),
            c.spec_senders() == 1,
            c.spec_receiver_alive(),
    {
        Channel { queue: Vec::new(), senders: 1, receiver_alive: true }
    }

    /// Another sender: a clone of an existing one.
    pub fn add_sender(&mut self)
        requires
            old(self).spec_senders() < usize::MAX,
        ensures
            final(self).spec_senders() == old(self).spec_senders() + 1,
            final(self).spec_queue() == old(self).spec_queue(),
            final(self).spec_receiver_alive() == old(self).spec_receiver_alive(),
    {
        self.senders = self.senders + 1;
    }

    /// A sender goes away.
    pub fn drop_sender(&mut self)
        requires
            old(self).spec_senders() > 0,
        ensures
            final(self).spec_senders() == old(self).spec_senders() - 1,
            final(self).spec_queue() == old(self).spec_queue(),
            final(self).spec_receiver_alive() == old(self).spec_receiver_alive(),
    {
        self.senders = self.senders - 1;
    }

    /// The receiver goes away; later sends fail.
    pub fn drop_receiver(&mut self)
        ensures
            !final(self).spec_receiver_alive(),
            final(self).spec_senders() == old(self).spec_senders(),
            final(self).spec_queue() == old(self).spec_queue(),
    {
        self.receiver_alive = false;
    }

    /// Attempts to send a value on this channel, returning it back if it
    /// could not be sent.
    pub fn send(&mut self, value: T) -> (r: Result<(), SendError<T>>)
        ensures
            old(self).spec_receiver_alive() ==> r is Ok && final(self).spec_queue() == old(self).spec_queue().push(value),
            !old(self).spec_receiver_alive() ==> r == Err::<(), SendError<T>>(SendError(value))
                && final(self).spec_queue() == old(self).spec_queue(),
            final(self).spec_senders() == old(self).spec_senders(),
            final(self).spec_receiver_alive() == old(self).spec_receiver_alive(),
    {
        if self.receiver_alive {
            self.queue.push(value);
            Ok(())
        } else {
            Err(SendError(value))
        }
    }

    /// Takes the pending value at `idx`, by moving the last one into its
    /// place, or reports why there is none.
    pub fn try_recv_at(&mut self, idx: usize) -> (r: Result<T, TryRecvError>)
        requires
            old(self).spec_queue().len() > 0 ==> idx < old(self).spec_queue().len(),
        ensures
            old(self).spec_queue().len() > 0 ==> r == Ok::<T, TryRecvError>(old(self).spec_queue()[idx as int])
                && final(self).spec_queue() == old(self).spec_queue().update(idx as int, old(self).spec_queue().last()).drop_last(),
            old(self).spec_queue().len() == 0 && old(self).spec_senders() == 0 ==> r == Err::<T, TryRecvError>(TryRecvError::Disconnected),
            old(self).spec_queue().len() == 0 && old(self).spec_senders() > 0 ==> r == Err::<T, TryRecvError>(TryRecvError::Empty),
            old(self).spec_queue().len() == 0 ==> final(self).spec_queue() == old(self).spec_queue(),
            final(self).spec_senders() == old(self).spec_senders(),
            final(self).spec_receiver_alive() == old(self).spec_receiver_alive(),
    {
        if self.queue.len() > 0 {
            Ok(self.queue.swap_remove(idx))
        } else if self.senders == 0 {
            Err(TryRecvError::Disconnected)
        } else {
            Err(TryRecvError::Empty)
        }
    }

    /// Attempts to take a pending value, chosen uniformly at random.
    pub fn try_recv_random(&mut self, rng: &mut GlobalRng, at: Option<Duration>) -> (r: Result<T, TryRecvError>)
        requires
            old(rng).wf(),
        ensures
            final(rng).wf(),
            final(rng).spec_seed() == old(rng).spec_seed(),
            final(rng).spec_buggify() == old(rng).spec_buggify(),
            old(self).spec_queue().len() > 0 ==> exists|idx: int| 0 <= idx < old(self).spec_queue().len()
                && r == Ok::<T, TryRecvError>(old(self).spec_queue()[idx])
                && final(self).spec_queue() == old(self).spec_queue().update(idx, old(self).spec_queue().last()).drop_last(),
            old(self).spec_queue().len() > 0 ==> {
                let (idx, next) = crate::rand::xoshiro_gen_range_of(old(rng).spec_stream(), 0, old(self).spec_queue().len() as u64);
                &&& idx < old(self).spec_queue().len()
                &&& r == Ok::<T, TryRecvError>(old(self).spec_queue()[idx as int])
                &&& final(self).spec_queue() == old(self).spec_queue().update(idx as int, old(self).spec_queue().last()).drop_last()
                &&& final(rng).spec_stream() == next
                &&& final(rng).drawn_from(*old(rng), at)
            },
            old(self).spec_queue().len() == 0 && old(self).spec_senders() == 0 ==> r == Err::<T, TryRecvError>(TryRecvError::Disconnected),
            old(self).spec_queue().len() == 0 && old(self).spec_senders() > 0 ==> r == Err::<T, TryRecvError>(TryRecvError::Empty),
            old(self).spec_queue().len() == 0 ==> final(self).spec_queue() == old(self).spec_queue() && *final(rng) == *old(rng),
            final(self).spec_senders() == old(self).spec_senders(),
            final(self).spec_receiver_alive() == old(self).spec_receiver_alive(),
    {
        if self.queue.len() > 0 {
            let idx = rng.gen_range(0, self.queue.len() as u64, at) as usize;
            self.try_recv_at(idx)
        } else {
            self.try_recv_at(0)
        }
    }
}

} // verus!

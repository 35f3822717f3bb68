//! The tagged mailbox of a network endpoint: messages wait for a receive
//! with their tag, and receives wait for a message with their tag.

use vstd::prelude::*;
use crate::addr::SocketAddr;

verus! {

/// A message delivered to an endpoint.
#[derive(Clone, Debug)]
pub struct Message {
    pub tag: u64,
    pub data: Vec<u8>,
    pub from: SocketAddr,
}

/// `s` with its element `i` removed by moving the last element into its place.
pub open spec fn swap_removed<A>(s: Seq<A>, i: int) -> Seq<A> {
    s.update(i, s.last()).drop_last()
}

/// Where a delivered message goes, scanning the pending receives from
/// position `i`: a receive with the message's tag whose receiver is still
/// open takes it; a matching receive whose receiver has closed is dropped
/// and the scan goes on. Returns the pending receives that remain and the
/// receive that took the message, if any.
pub open spec fn spec_deliver_from(reg: Seq<(u64, u64)>, i: int, tag: u64, closed: Seq<u64>) -> (Seq<(u64, u64)>, Option<u64>)
    decreases reg.len() - i,
{
    if i < 0 || i >= reg.len() {
        (reg, None)
    } else if reg[i].0 == tag {
        if closed.contains(reg[i].1) {
            spec_deliver_from(swap_removed(reg, i), i, tag, closed)
        } else {
            (swap_removed(reg, i), Some(reg[i].1))
        }
    } else {
        spec_deliver_from(reg, i + 1, tag, closed)
    }
}

/// The position of the first message of `msgs` with tag `tag`, if any.
pub open spec fn first_with_tag(msgs: Seq<Message>, tag: u64) -> Option<int> {
    if exists|i: int| 0 <= i < msgs.len() && msgs[i].tag == tag {
        Some(choose|i: int| 0 <= i < msgs.len() && msgs[i].tag == tag
            && forall|j: int| 0 <= j < i ==> msgs[j].tag != tag)
    } else {
        None
    }
}

/// With no pending receive for its tag, a delivered message is kept: the
/// scan hands it to nobody and drops no receive.
pub proof fn unmatched_message_is_kept(reg: Seq<(u64, u64)>, i: int, tag: u64, closed: Seq<u64>)
    requires
        0 <= i,
        forall|k: int| 0 <= k < reg.len() ==> reg[k].0 != tag,
    ensures
        spec_deliver_from(reg, i, tag, closed) == (reg, None::<u64>),
    decreases reg.len() - i,
{
    if i < reg.len() {
        unmatched_message_is_kept(reg, i + 1, tag, closed);
    }
}

/// A message kept in a mailbox that holds no other message of its tag is
/// what the next receive with that tag gets.
pub proof fn kept_message_is_received(msgs: Seq<Message>, m: Message)
    requires
        forall|k: int| 0 <= k < msgs.len() ==> msgs[k].tag != m.tag,
    ensures
        first_with_tag(msgs.push(m), m.tag) == Some(msgs.len() as int),
        msgs.push(m)[msgs.len() as int] == m,
{
    let s = msgs.push(m);
    assert(s[msgs.len() as int] == m);
    let p = choose|i: int| 0 <= i < s.len() && s[i].tag == m.tag && forall|j: int| 0 <= j < i ==> s[j].tag != m.tag;
    if p < msgs.len() {
        assert(s[p] == msgs[p]);
    }
}

/// A pending receive takes the next message of its tag: delivering to a
/// mailbox whose first receive of that tag is open hands the message to it.
pub proof fn open_receive_takes_message(reg: Seq<(u64, u64)>, tag: u64, closed: Seq<u64>, k: int)
    requires
        0 <= k < reg.len(),
        reg[k].0 == tag,
        !closed.contains(reg[k].1),
        forall|j: int| 0 <= j < k ==> reg[j].0 != tag,
    ensures
        spec_deliver_from(reg, 0, tag, closed) == (swap_removed(reg, k), Some(reg[k].1)),
{
    skip_to(reg, 0, k, tag, closed);
}

proof fn skip_to(reg: Seq<(u64, u64)>, i: int, k: int, tag: u64, closed: Seq<u64>)
    requires
        0 <= i <= k < reg.len(),
        forall|j: int| i <= j < k ==> reg[j].0 != tag,
    ensures
        spec_deliver_from(reg, i, tag, closed) == spec_deliver_from(reg, k, tag, closed),
    decreases k - i,
{
    if i < k {
        skip_to(reg, i + 1, k, tag, closed);
    }
}

/// What a receive gets: a message that was waiting, or a ticket for the
/// message to come.
#[derive(Debug)]
pub enum RecvOutcome {
    /// A waiting message with the tag.
    Ready(Message),
    /// No message with the tag waits; the receive is registered under this id.
    Pending(u64),
}

/// Tag message mailbox for an endpoint.
pub struct Mailbox {
    /// Pending receive requests: (tag, receive id).
    registered: Vec<(u64, u64)>,
    /// Messages that have not been received.
    msgs: Vec<Message>,
    /// The id of the next receive to register.
    next_id: u64,
}

impl Mailbox {
    /// The pending receives, as (tag, receive id).
    pub closed spec fn spec_registered(&self) -> Seq<(u64, u64)> {
        self.registered@
    }

    /// The messages waiting to be received.
    pub closed spec fn spec_msgs(&self) -> Seq<Message> {
        self.msgs@
    }

    /// The id the next registered receive gets.
    pub closed spec fn spec_next_id(&self) -> u64 {
        self.next_id
    }

    /// An empty mailbox.
    pub fn new() -> (m: Mailbox)
        ensures
            m.spec_registered() == Seq::<(u64, u64)>::empty(),
            m.spec_msgs() == Seq::<Message>::empty(),
            m.spec_next_id() == 0,
    {
        Mailbox { registered: Vec::new(), msgs: Vec::new(), next_id: 0 }
    }

    /// Delivers `msg`. The pending receives are scanned in order; one with the
    /// message's tag takes it unless its receiver is among `closed`, in which
    /// case it is dropped and the scan goes on. Returns the receive that took
    /// the message, with the message; `None` when it was kept in the mailbox.
    pub fn deliver(&mut self, msg: Message, closed: &Vec<u64>) -> (r: Option<(u64, Message)>)
        ensures
            ({
                let (reg, taker) = spec_deliver_from(old(self).spec_registered(), 0, msg.tag, closed@);
                &&& final(self).spec_registered() == reg
                &&& final(self).spec_next_id() == old(self).spec_next_id()
                &&& match taker {
                    Some(id) => r == Some((id, msg)) && final(self).spec_msgs() == old(self).spec_msgs(),
                    None => r is None && final(self).spec_msgs() == old(self).spec_msgs().push(msg),
                }
            }),
    {
        let ghost reg0 = self.registered@;
        let mut i: usize = 0;
        while i < self.registered.len()
            invariant
                i <= self.registered@.len(),
                reg0 == old(self).registered@,
                spec_deliver_from(reg0, 0, msg.tag, closed@) == spec_deliver_from(self.registered@, i as int, msg.tag, closed@),
                self.msgs@ == old(self).msgs@,
                self.next_id == old(self).next_id,
            decreases self.registered@.len() - i,
        {
            if self.registered[i].0 == msg.tag {
                let ghost before = self.registered@;
                let (_, id) = self.registered.swap_remove(i);
                let mut is_closed = false;
                let mut k: usize = 0;
                while k < closed.len()
                    invariant
                        k <= closed@.len(),
                        is_closed == (exists|j: int| 0 <= j < k && closed@[j] == id),
                    decreases closed@.len() - k,
                {
                    if closed[k] == id {
                        is_closed = true;
                    }
                    k = k + 1;
                }
                assert(is_closed == closed@.contains(id));
                assert(self.registered@ == swap_removed(before, i as int));
                assert(before[i as int] == (msg.tag, id));
                if !is_closed {
                    assert(spec_deliver_from(before, i as int, msg.tag, closed@) == (self.registered@, Some(id)));
                    return Some((id, msg));
                }
            } else {
                i = i + 1;
            }
        }
        self.msgs.push(msg);
        None
    }

    /// Receives a message with `tag`: the first waiting one with that tag,
    /// taken out by moving the last message into its place; or, if none
    /// waits, registers the receive under a fresh id.
    pub fn recv(&mut self, tag: u64) -> (r: RecvOutcome)
        ensures
            match first_with_tag(old(self).spec_msgs(), tag) {
                Some(p) => r == RecvOutcome::Ready(old(self).spec_msgs()[p])
                    && final(self).spec_msgs() == swap_removed(old(self).spec_msgs(), p)
                    && final(self).spec_registered() == old(self).spec_registered()
                    && final(self).spec_next_id() == old(self).spec_next_id(),
                None => r == RecvOutcome::Pending(old(self).spec_next_id())
                    && final(self).spec_msgs() == old(self).spec_msgs()
                    && final(self).spec_registered() == old(self).spec_registered().push((tag, old(self).spec_next_id()))
                    && final(self).spec_next_id() == old(self).spec_next_id().wrapping_add(1),
            },
    {
        let mut i: usize = 0;
        while i < self.msgs.len()
            invariant
                i <= self.msgs@.len(),
                forall|j: int| 0 <= j < i ==> self.msgs@[j].tag != tag,
                self.msgs@ == old(self).msgs@,
                self.registered@ == old(self).registered@,
                self.next_id == old(self).next_id,
            decreases self.msgs@.len() - i,
        {
            if self.msgs[i].tag == tag {
                let msg = self.msgs.swap_remove(i);
                proof {
                    let p = first_with_tag(old(self).msgs@, tag)->0;
                    assert(0 <= p < old(self).msgs@.len() && old(self).msgs@[p].tag == tag);
                    if p < i {
                    } else if p > i {
                    }
                    assert(p == i);
                }
                return RecvOutcome::Ready(msg);
            }
            i = i + 1;
        }
        let id = self.next_id;
        self.registered.push((tag, id));
        self.next_id = self.next_id.wrapping_add(1);
        RecvOutcome::Pending(id)
    }

    /// Drops every pending receive and waiting message.
    pub fn clear(&mut self)
        ensures
            final(self).spec_registered() == Seq::<(u64, u64)>::empty(),
            final(self).spec_msgs() == Seq::<Message>::empty(),
            final(self).spec_next_id() == old(self).spec_next_id(),
    {
        self.registered.clear();
        self.msgs.clear();
    }
}

} // verus!

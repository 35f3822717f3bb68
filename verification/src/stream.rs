//! The buffers of a simulated TCP stream: written bytes wait in the write
//! buffer until a flush sends them; received bytes wait in the read buffer
//! until reads take them, front first.

use vstd::prelude::*;

verus! {

/// The read and write buffers of a stream.
pub struct StreamBuf {
    read_buf: Vec<u8>,
    write_buf: Vec<u8>,
}

/// The bytes that a read with room for `room` bytes takes from `pending`.
pub open spec fn spec_read(pending: Seq<u8>, room: nat) -> Seq<u8> {
    if pending.len() <= room { pending } else { pending.take(room as int) }
}

impl StreamBuf {
    /// Received bytes not read yet.
    pub closed spec fn spec_read_buf(&self) -> Seq<u8> {
        self.read_buf@
    }

    /// Written bytes not sent yet.
    pub closed spec fn spec_write_buf(&self) -> Seq<u8> {
        self.write_buf@
    }

    /// Empty buffers.
    pub fn new() -> (b: StreamBuf)
        ensures
            b.spec_read_buf().len() == 0,
            b.spec_write_buf().len() == 0,
    {
        StreamBuf { read_buf: Vec::new(), write_buf: Vec::new() }
    }

    /// Whether some received bytes wait to be read.
    pub fn has_pending(&self) -> (b: bool)
        ensures
            b == (self.spec_read_buf().len() > 0),
    {
        self.read_buf.len() > 0
    }

    /// Received `data`: it becomes the bytes to read.
    pub fn fill(&mut self, data: Vec<u8>)
        ensures
            final(self).spec_read_buf() == data@,
            final(self).spec_write_buf() == old(self).spec_write_buf(),
    {
        self.read_buf = data;
    }

    /// Reads at most `room` bytes, the oldest first; `None` when nothing
    /// waits (the read would block).
    pub fn try_read(&mut self, room: usize) -> (r: Option<Vec<u8>>)
        ensures
            old(self).spec_read_buf().len() == 0 ==> r is None && *final(self) == *old(self),
            old(self).spec_read_buf().len() > 0 ==> {
                let got = spec_read(old(self).spec_read_buf(), room as nat);
                &&& r matches Some(v) && v@ == got
                &&& final(self).spec_read_buf() == old(self).spec_read_buf().skip(got.len() as int)
            },
            final(self).spec_write_buf() == old(self).spec_write_buf(),
    {
        if self.read_buf.len() == 0 {
            return None;
        }
        let len = if self.read_buf.len() < room { self.read_buf.len() } else { room };
        let mut got: Vec<u8> = Vec::new();
        let mut rest: Vec<u8> = Vec::new();
        let mut i: usize = 0;
        while i < self.read_buf.len()
            invariant
                i <= self.read_buf@.len(),
                len <= self.read_buf@.len(),
                i <= len ==> got@ == self.read_buf@.take(i as int) && rest@.len() == 0,
                i > len ==> got@ == self.read_buf@.take(len as int) && rest@ == self.read_buf@.subrange(len as int, i as int),
            decreases self.read_buf@.len() - i,
        {
            if i < len {
                got.push(self.read_buf[i]);
                proof { assert(self.read_buf@.take(i + 1) == self.read_buf@.take(i as int).push(self.read_buf@[i as int])); }
            } else {
                rest.push(self.read_buf[i]);
                proof {
                    if i == len {
                        assert(self.read_buf@.subrange(len as int, i + 1) =~= seq![self.read_buf@[i as int]]);
                    } else {
                        assert(self.read_buf@.subrange(len as int, i + 1) == self.read_buf@.subrange(len as int, i as int).push(self.read_buf@[i as int]));
                    }
                }
            }
            i = i + 1;
        }
        proof {
            if len == self.read_buf@.len() {
                assert(self.read_buf@.take(len as int) == self.read_buf@);
                assert(rest@ =~= self.read_buf@.skip(len as int));
            } else {
                assert(self.read_buf@.subrange(len as int, self.read_buf@.len() as int) == self.read_buf@.skip(len as int));
            }
        }
        self.read_buf = rest;
        Some(got)
    }

    /// Writes all of `buf`; returns its length.
    pub fn write(&mut self, buf: &[u8]) -> (n: usize)
        ensures
            n == buf@.len(),
            final(self).spec_write_buf() == old(self).spec_write_buf() + buf@,
            final(self).spec_read_buf() == old(self).spec_read_buf(),
    {
        let ghost w0 = self.write_buf@;
        let ghost r0 = self.read_buf@;
        let mut i: usize = 0;
        while i < buf.len()
            invariant
                i <= buf@.len(),
                r0 == old(self).read_buf@,
                self.read_buf@ == r0,
                self.write_buf@ == w0 + buf@.take(i as int),
            decreases buf@.len() - i,
        {
            self.write_buf.push(buf[i]);
            proof { assert(buf@.take(i + 1) == buf@.take(i as int).push(buf@[i as int])); }
            i = i + 1;
        }
        proof { assert(buf@.take(buf@.len() as int) == buf@); }
        buf.len()
    }

    /// Takes the written bytes out, to be sent.
    pub fn flush(&mut self) -> (data: Vec<u8>)
        ensures
            data@ == old(self).spec_write_buf(),
            final(self).spec_write_buf().len() == 0,
            final(self).spec_read_buf() == old(self).spec_read_buf(),
    {
        let mut data: Vec<u8> = Vec::new();
        std::mem::swap(&mut data, &mut self.write_buf);
        data
    }
}

/// What reads give back: reading `pending` with room for `room` bytes, then
/// reading what is left, gives back the bytes in the order they arrived,
/// none lost or repeated.
pub proof fn reads_give_back_in_order(pending: Seq<u8>, room: nat)
    ensures
        spec_read(pending, room) + pending.skip(spec_read(pending, room).len() as int) == pending,
        spec_read(pending, room).len() <= room,
{
    assert(spec_read(pending, room) + pending.skip(spec_read(pending, room).len() as int) =~= pending);
}

} // verus!

//! The single-slot handoff between an I/O loop and the engine.
//!
//! A pipe carries at most one datagram at a time — this is the engine's
//! backpressure. The producer may fill it only while it is empty and then
//! raises `supplied`; the consumer takes the datagram, leaves the pipe
//! empty and raises `consumed`. The two flags are what the two
//! notifications are in a cooperative embedding: each side observes and
//! clears the one the other raises.

use vstd::prelude::*;

use crate::packet::Address;

verus! {

/// One datagram's place in the pipe's buffer, and where it came from or
/// goes to.
#[derive(Clone, Copy, Debug, PartialEq, Eq)]
pub struct Chunk {
    pub start: usize,
    pub end: usize,
    pub addr: Address,
}

/// A single-slot bounded channel over a byte buffer.
#[derive(Debug)]
pub struct Pipe {
    pub buf: Vec<u8>,
    pub chunk: Option<Chunk>,
    pub supplied: bool,
    pub consumed: bool,
}

impl Pipe {
    /// A chunk, when present, lies within the buffer.
    pub open spec fn wf(self) -> bool {
        self.chunk matches Some(c) ==> c.start <= c.end <= self.buf@.len()
    }

    /// An empty pipe over a zeroed buffer of this size.
    pub fn new(size: usize) -> (p: Pipe)
        ensures
            p.wf(),
            p.chunk is None,
            !p.supplied,
            !p.consumed,
            p.buf@.len() == size,
    {
        let mut buf: Vec<u8> = Vec::new();
        let mut i: usize = 0;
        while i < size
            invariant
                buf@.len() == i,
                i <= size,
            decreases size - i,
        {
            buf.push(0);
            i = i + 1;
        }
        Pipe { buf, chunk: None, supplied: false, consumed: false }
    }

    /// The producer's side: places a datagram into the empty pipe and
    /// raises `supplied`; a full pipe refuses and nothing changes.
    pub fn supply(&mut self, data: &Vec<u8>, addr: Address) -> (ok: bool)
        requires
            old(self).wf(),
            data@.len() <= old(self).buf@.len(),
        ensures
            final(self).wf(),
            ok == (old(self).chunk is None),
            if ok {
                &&& final(self).chunk == Some(Chunk { start: 0, end: data@.len() as usize, addr })
                &&& final(self).buf@.len() == old(self).buf@.len()
                &&& final(self).buf@.take(data@.len() as int) == data@
                &&& final(self).supplied
                &&& final(self).consumed == old(self).consumed
            } else {
                *final(self) == *old(self)
            },
    {
        if self.chunk.is_some() {
            return false;
        }
        let mut i: usize = 0;
        while i < data.len()
            invariant
                i <= data@.len(),
                data@.len() <= self.buf@.len(),
                self.buf@.len() == old(self).buf@.len(),
                self.buf@.take(i as int) == data@.take(i as int),
                self.chunk == old(self).chunk,
                self.supplied == old(self).supplied,
                self.consumed == old(self).consumed,
            decreases data@.len() - i,
        {
            let b = &mut self.buf[i];
            *b = data[i];
            proof {
                assert(self.buf@.take(i as int + 1) =~= data@.take(i as int + 1));
            }
            i = i + 1;
        }
        self.chunk = Some(Chunk { start: 0, end: data.len(), addr });
        self.supplied = true;
        proof {
            assert(data@.take(data@.len() as int) =~= data@);
        }
        true
    }

    /// The consumer's side: takes the datagram out of the pipe, leaves it
    /// empty and raises `consumed`; an empty pipe yields nothing.
    pub fn consume(&mut self) -> (r: Option<(Vec<u8>, Address)>)
        requires
            old(self).wf(),
        ensures
            final(self).wf(),
            final(self).buf@ == old(self).buf@,
            match r {
                Some((data, addr)) => ({
                    let c = old(self).chunk.unwrap();
                    &&& old(self).chunk is Some
                    &&& data@ == old(self).buf@.subrange(c.start as int, c.end as int)
                    &&& addr == c.addr
                    &&& final(self).chunk is None
                    &&& final(self).consumed
                    &&& final(self).supplied == old(self).supplied
                }),
                None => old(self).chunk is None && *final(self) == *old(self),
            },
    {
        let Some(c) = self.chunk else {
            return None;
        };
        let mut data: Vec<u8> = Vec::new();
        let mut i: usize = c.start;
        while i < c.end
            invariant
                c.start <= i <= c.end <= self.buf@.len(),
                data@ == self.buf@.subrange(c.start as int, i as int),
                self.buf@ == old(self).buf@,
                self.chunk == old(self).chunk,
                self.supplied == old(self).supplied,
                self.consumed == old(self).consumed,
            decreases c.end - i,
        {
            data.push(self.buf[i]);
            proof {
                assert(data@ =~= self.buf@.subrange(c.start as int, i as int + 1));
            }
            i = i + 1;
        }
        self.chunk = None;
        self.consumed = true;
        Some((data, c.addr))
    }

    /// Observes and clears the producer-to-consumer signal.
    pub fn take_supplied(&mut self) -> (r: bool)
        requires
            old(self).wf(),
        ensures
            final(self).wf(),
            r == old(self).supplied,
            *final(self) == (Pipe { supplied: false, ..*old(self) }),
    {
        let r = self.supplied;
        self.supplied = false;
        r
    }

    /// Observes and clears the consumer-to-producer signal.
    pub fn take_consumed(&mut self) -> (r: bool)
        requires
            old(self).wf(),
        ensures
            final(self).wf(),
            r == old(self).consumed,
            *final(self) == (Pipe { consumed: false, ..*old(self) }),
    {
        let r = self.consumed;
        self.consumed = false;
        r
    }
}

} // verus!

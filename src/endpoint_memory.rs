//! Bump allocator over the packet-memory pool shared by the OUT endpoints.
//!
//! The pool is counted in 32-bit words. Its first words are set aside for
//! the peripheral's shared receive FIFO; endpoint buffers are carved out
//! after them, in order, and never given back.
use crate::types::UsbError;
use vstd::prelude::*;

verus! {

/// Words of the pool reserved for the shared receive FIFO.
pub const RX_FIFO_SIZE: u32 = 32;

/// A region of the pool: `len` words starting at word `offset`.
#[derive(Clone, Copy, Debug, PartialEq, Eq, Structural)]
pub struct EndpointBuffer {
    pub offset: usize,
    pub len: usize,
}

impl EndpointBuffer {
    pub open spec fn end(&self) -> int {
        self.offset + self.len
    }
}

pub struct EndpointMemoryAllocator {
    next: usize,
    capacity: usize,
    issued: Ghost<Seq<EndpointBuffer>>,
}

/// Number of words that hold `size` bytes.
pub open spec fn words_of(size: int) -> int {
    (size + 3) / 4
}

impl EndpointMemoryAllocator {
    /// First word not yet handed out.
    pub closed spec fn next(&self) -> nat {
        self.next as nat
    }

    /// Size of the pool in words.
    pub closed spec fn capacity(&self) -> nat {
        self.capacity as nat
    }

    /// Every buffer handed out so far, in order.
    pub closed spec fn issued(&self) -> Seq<EndpointBuffer> {
        self.issued@
    }

    /// The reserved receive-FIFO region comes first; buffers follow it in
    /// order of issue, each ending where the next may start, all below the
    /// bump offset, which stays within the pool.
    pub closed spec fn wf(&self) -> bool {
        &&& RX_FIFO_SIZE <= self.next
        &&& self.issued@.len() > 0 ==> self.next <= self.capacity
        &&& forall|i: int|
            0 <= i < self.issued@.len() ==> {
                &&& RX_FIFO_SIZE <= (#[trigger] self.issued@[i]).offset
                &&& self.issued@[i].end() <= self.next
            }
        &&& forall|i: int, j: int|
            0 <= i < j < self.issued@.len() ==> (#[trigger] self.issued@[i]).end()
                <= (#[trigger] self.issued@[j]).offset
    }

    /// A pool of `capacity` words, with the receive FIFO's share reserved.
    /// A pool smaller than that share hands out nothing.
    pub fn new(capacity: usize) -> (r: EndpointMemoryAllocator)
        ensures
            r.wf(),
            r.capacity() == capacity,
            r.next() == RX_FIFO_SIZE,
            r.issued().len() == 0,
    {
        EndpointMemoryAllocator {
            next: RX_FIFO_SIZE as usize,
            capacity,
            issued: Ghost(Seq::empty()),
        }
    }

    /// Hands out the next `size` bytes (rounded up to whole words), or
    /// fails with `EndpointOverflow`, changing nothing, when the rest of
    /// the pool is too small.
    pub fn allocate_rx_buffer(&mut self, size: usize) -> (r: Result<EndpointBuffer, UsbError>)
        requires
            old(self).wf(),
        ensures
            final(self).wf(),
            final(self).capacity() == old(self).capacity(),
            r is Err ==> *final(self) == *old(self),
            words_of(size as int) <= old(self).capacity() - old(self).next() ==> {
                &&& r == Ok::<EndpointBuffer, UsbError>(
                    EndpointBuffer { offset: old(self).next() as usize, len: words_of(size as int) as usize },
                )
                &&& final(self).next() == old(self).next() + words_of(size as int)
                &&& final(self).issued() == old(self).issued().push(r->Ok_0)
            },
            words_of(size as int) > old(self).capacity() - old(self).next() ==> {
                &&& r == Err::<EndpointBuffer, UsbError>(UsbError::EndpointOverflow)
                &&& final(self).next() == old(self).next()
                &&& final(self).issued() == old(self).issued()
            },
    {
        let words = size / 4 + if size % 4 > 0 {
            1
        } else {
            0
        };
        if self.next > self.capacity || words > self.capacity - self.next {
            return Err(UsbError::EndpointOverflow);
        }
        let buffer = EndpointBuffer { offset: self.next, len: words };
        self.next = self.next + words;
        self.issued = Ghost(self.issued@.push(buffer));
        proof {
            assert(forall|i: int| 0 <= i < self.issued@.len() - 1 ==> self.issued@[i] == old(self).issued@[i]);
        }
        Ok(buffer)
    }

    /// Buffers handed out by the allocator never overlap: of two, the one
    /// issued first ends at or before the start of the other.
    pub proof fn lemma_allocations_disjoint(&self, i: int, j: int)
        requires
            self.wf(),
            0 <= i < j < self.issued().len(),
        ensures
            self.issued()[i].end() <= self.issued()[j].offset,
    {
    }

    /// Every buffer handed out lies inside the pool, after the reserved
    /// receive-FIFO region, so the words handed out never exceed the pool.
    pub proof fn lemma_allocations_within_capacity(&self, i: int)
        requires
            self.wf(),
            0 <= i < self.issued().len(),
        ensures
            RX_FIFO_SIZE <= self.issued()[i].offset,
            self.issued()[i].end() <= self.next() <= self.capacity(),
    {
    }
}

} // verus!

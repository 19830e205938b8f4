//! The byte buffer that a worker reads into.

use vstd::prelude::*;

verus! {

/// The largest storage a buffer can have: no allocation of bytes is larger.
pub const MAX_CAPACITY: usize = usize::MAX / 2;

/// The larger of two sizes.
pub open spec fn larger(a: int, b: int) -> int {
    if a >= b { a } else { b }
}

/// By how much a buffer of `capacity` bytes grows when it has to: by half of
/// what it has, but by no less than `min_free`.
pub open spec fn growth_step(capacity: int, min_free: int) -> int {
    larger(capacity / 2, min_free)
}

/// The capacity after room for `min_free` bytes was asked for: unchanged
/// while the free space reaches the growth step, larger by that step where it
/// does not.
pub open spec fn grown_capacity(capacity: int, pending: int, min_free: int) -> int {
    if capacity - pending < growth_step(capacity, min_free) {
        capacity + growth_step(capacity, min_free)
    } else {
        capacity
    }
}

/// A buffer of bytes that were read and not yet written out.
///
/// The pending bytes stand at the front of the storage; the rest of the
/// storage is free room for the next read.
pub struct ReadBuffer {
    data: Vec<u8>,
    pending_len: usize,
}

impl View for ReadBuffer {
    type V = Seq<u8>;

    /// The pending bytes, oldest first.
    closed spec fn view(&self) -> Seq<u8> {
        self.data@.subrange(0, self.pending_len as int)
    }
}

impl ReadBuffer {
    /// The pending bytes never exceed the storage, nor the storage
    /// `MAX_CAPACITY`.
    pub closed spec fn wf(&self) -> bool {
        &&& self.pending_len <= self.data@.len()
        &&& self.data@.len() <= MAX_CAPACITY
    }

    /// The size of the storage in bytes.
    pub closed spec fn spec_capacity(&self) -> usize {
        self.data.len()
    }

    /// The number of pending bytes.
    pub closed spec fn spec_pending_len(&self) -> usize {
        self.pending_len
    }

    /// The pending bytes are as many as `pending_len` says, and fit.
    pub proof fn lemma_len(&self)
        requires
            self.wf(),
        ensures
            self@.len() == self.spec_pending_len(),
            self.spec_pending_len() <= self.spec_capacity(),
            self.spec_capacity() <= MAX_CAPACITY,
    {
    }

    /// An empty buffer with `capacity` bytes of storage.
    pub fn new(capacity: usize) -> (buffer: ReadBuffer)
        requires
            capacity <= MAX_CAPACITY,
        ensures
            buffer.wf(),
            buffer@ == Seq::<u8>::empty(),
            buffer.spec_capacity() == capacity,
            buffer.spec_pending_len() == 0,
    {
        let mut data: Vec<u8> = Vec::new();
        data.resize(capacity, 0u8);
        let buffer = ReadBuffer { data, pending_len: 0 };
        proof {
            assert(buffer@ =~= Seq::<u8>::empty());
        }
        buffer
    }

    /// The size of the storage in bytes.
    #[verifier::when_used_as_spec(spec_capacity)]
    pub fn capacity(&self) -> (n: usize)
        ensures
            n == self.spec_capacity(),
    {
        self.data.len()
    }

    /// The number of pending bytes.
    #[verifier::when_used_as_spec(spec_pending_len)]
    pub fn pending_len(&self) -> (n: usize)
        ensures
            n == self.spec_pending_len(),
    {
        self.pending_len
    }

    /// The pending bytes.
    pub fn pending(&self) -> (bytes: &[u8])
        requires
            self.wf(),
        ensures
            bytes@ == self@,
    {
        vstd::slice::slice_subrange(self.data.as_slice(), 0, self.pending_len)
    }

    /// Whether room for `min_free` bytes can be made with `pending` bytes
    /// pending: either no growth is due then, or the storage can grow by one
    /// step without passing `MAX_CAPACITY`.
    pub fn fits_after(&self, pending: usize, min_free: usize) -> (yes: bool)
        requires
            self.wf(),
            pending <= self.spec_capacity(),
        ensures
            yes == (grown_capacity(
                self.spec_capacity() as int,
                pending as int,
                min_free as int,
            ) <= MAX_CAPACITY),
    {
        let cap: usize = self.data.len();
        let half: usize = cap / 2;
        let step: usize = if half >= min_free { half } else { min_free };
        if cap - pending < step {
            step <= MAX_CAPACITY - cap
        } else {
            true
        }
    }

    /// Makes sure that at least `min_free` more bytes fit.
    ///
    /// Where the free room is smaller than the growth step, the storage grows
    /// by that step; otherwise nothing changes. The pending bytes stay.
    pub fn ensure_capacity(&mut self, min_free: usize)
        requires
            old(self).wf(),
            grown_capacity(
                old(self).spec_capacity() as int,
                old(self).spec_pending_len() as int,
                min_free as int,
            ) <= MAX_CAPACITY,
        ensures
            final(self).wf(),
            final(self)@ == old(self)@,
            final(self).spec_pending_len() == old(self).spec_pending_len(),
            final(self).spec_capacity() == grown_capacity(
                old(self).spec_capacity() as int,
                old(self).spec_pending_len() as int,
                min_free as int,
            ),
            final(self).spec_capacity() - final(self).spec_pending_len() >= min_free,
    {
        let cap: usize = self.data.len();
        let half: usize = cap / 2;
        let step: usize = if half >= min_free { half } else { min_free };
        if cap - self.pending_len < step {
            self.data.resize(cap + step, 0u8);
            proof {
                assert(final(self)@ =~= old(self)@) by {
                    assert(self.data@.subrange(0, cap as int) == old(self).data@);
                    assert forall|i: int| 0 <= i < self.pending_len implies self.data@[i] == old(
                        self,
                    ).data@[i] by {
                        assert(self.data@.subrange(0, cap as int)[i] == self.data@[i]);
                    }
                }
            }
        }
    }

    /// Takes `bytes` in behind the pending bytes. They must fit in the free
    /// room; the storage does not grow here.
    pub fn append(&mut self, bytes: &[u8])
        requires
            old(self).wf(),
            bytes@.len() <= old(self).spec_capacity() - old(self).spec_pending_len(),
        ensures
            final(self).wf(),
            final(self)@ == old(self)@ + bytes@,
            final(self).spec_capacity() == old(self).spec_capacity(),
            final(self).spec_pending_len() == old(self).spec_pending_len() + bytes@.len(),
    {
        let start: usize = self.pending_len;
        let n: usize = bytes.len();
        let cap: usize = self.data.len();
        let mut i: usize = 0;
        while i < n
            invariant
                i <= n,
                start + n <= cap,
                n == bytes@.len(),
                start == old(self).pending_len,
                self.pending_len == start,
                self.data@.len() == old(self).data@.len(),
                start + n <= self.data@.len(),
                self.data@.subrange(0, start as int) == old(self).data@.subrange(0, start as int),
                self.data@.subrange(start as int, start + i) == bytes@.subrange(0, i as int),
            decreases n - i,
        {
            let ghost before = self.data@;
            self.data[start + i] = bytes[i];
            proof {
                assert(self.data@.subrange(0, start as int) =~= before.subrange(0, start as int));
                assert(self.data@.subrange(start as int, start + i + 1) =~= before.subrange(
                    start as int,
                    start + i,
                ).push(bytes@[i as int]));
                assert(bytes@.subrange(0, i + 1) =~= bytes@.subrange(0, i as int).push(
                    bytes@[i as int],
                ));
            }
            i += 1;
        }
        self.pending_len = start + n;
        proof {
            assert(bytes@.subrange(0, n as int) =~= bytes@);
            assert(self.data@.subrange(0, start + n) =~= self.data@.subrange(0, start as int)
                + self.data@.subrange(start as int, start + n));
        }
    }

    /// Takes one byte in behind the pending bytes. There must be room for it.
    pub fn push(&mut self, byte: u8)
        requires
            old(self).wf(),
            old(self).spec_pending_len() < old(self).spec_capacity(),
        ensures
            final(self).wf(),
            final(self)@ == old(self)@.push(byte),
            final(self).spec_capacity() == old(self).spec_capacity(),
            final(self).spec_pending_len() == old(self).spec_pending_len() + 1,
    {
        let at: usize = self.pending_len;
        self.data[at] = byte;
        self.pending_len = at + 1;
        proof {
            assert(final(self)@ =~= old(self)@.push(byte));
        }
    }

    /// Drops the first `n` pending bytes; what follows them moves to the
    /// front.
    pub fn consume(&mut self, n: usize)
        requires
            old(self).wf(),
            n <= old(self).spec_pending_len(),
        ensures
            final(self).wf(),
            final(self)@ == old(self)@.subrange(n as int, old(self)@.len() as int),
            final(self).spec_capacity() == old(self).spec_capacity(),
            final(self).spec_pending_len() == old(self).spec_pending_len() - n,
    {
        let rest: usize = self.pending_len - n;
        let mut i: usize = 0;
        while i < rest
            invariant
                i <= rest,
                rest + n == old(self).pending_len,
                self.pending_len == old(self).pending_len,
                self.data@.len() == old(self).data@.len(),
                old(self).pending_len <= old(self).data@.len(),
                forall|j: int| 0 <= j < i ==> self.data@[j] == old(self).data@[j + n],
                forall|j: int| i + n <= j < self.data@.len() ==> self.data@[j] == old(self).data@[j],
            decreases rest - i,
        {
            let byte: u8 = self.data[i + n];
            self.data[i] = byte;
            i += 1;
        }
        self.pending_len = rest;
        proof {
            assert(final(self)@ =~= old(self)@.subrange(n as int, old(self)@.len() as int));
        }
    }
}

} // verus!

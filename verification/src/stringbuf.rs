//! A byte ring buffer for kernel-side logging without an allocator.

use vstd::prelude::*;

verus! {

/// A ring buffer of bytes: `last` remembers the slot written most
/// recently, and writes continue from there, wrapping at the end.
pub struct Stringbuf {
    /// Index of the most recently written slot, if anything was written.
    pub last: Option<usize>,
    /// The storage; its length is fixed at construction.
    pub buffer: Vec<u8>,
}

impl Stringbuf {
    /// Builds a ring of `n` zeroed slots.
    pub fn new(n: usize) -> (r: Stringbuf)
        requires
            n > 0,
        ensures
            r.last is None,
            r.buffer@.len() == n,
            forall|i: int| 0 <= i < n ==> r.buffer@[i] == 0,
    {
        let mut buffer: Vec<u8> = Vec::new();
        let mut i: usize = 0;
        while i < n
            invariant
                i <= n,
                buffer@.len() == i,
                forall|j: int| 0 <= j < i ==> buffer@[j] == 0,
            decreases n - i,
        {
            buffer.push(0);
            i = i + 1;
        }
        Stringbuf { last: None, buffer }
    }

    /// The slot the next entry lands in: the start for an empty ring, the
    /// successor of the last write otherwise, wrapping at the end.
    pub open spec fn next_slot(self) -> int {
        match self.last {
            None => 0,
            Some(last) => if last + 1 >= self.buffer@.len() {
                0
            } else {
                last + 1
            },
        }
    }

    /// Appends one byte, overwriting the oldest slot once the ring has
    /// wrapped.
    pub fn entry(&mut self, payload: u8)
        requires
            old(self).buffer@.len() > 0,
            match old(self).last {
                Some(last) => last < old(self).buffer@.len(),
                None => true,
            },
        ensures
            final(self).buffer@ == old(self).buffer@.update(old(self).next_slot(), payload),
            final(self).last == Some(old(self).next_slot() as usize),
    {
        let ndx = match self.last {
            None => 0,
            Some(last) => {
                if last >= self.buffer.len() - 1 {
                    0
                } else {
                    last + 1
                }
            },
        };
        self.buffer.set(ndx, payload);
        self.last = Some(ndx);
    }

    /// Appends every byte of a string, in order.
    pub fn write_str(&mut self, s: &str)
        requires
            old(self).buffer@.len() > 0,
            match old(self).last {
                Some(last) => last < old(self).buffer@.len(),
                None => true,
            },
        ensures
            final(self).buffer@.len() == old(self).buffer@.len(),
            match final(self).last {
                Some(last) => last < final(self).buffer@.len(),
                None => true,
            },
    {
        let bytes = s.as_bytes();
        let mut i: usize = 0;
        while i < bytes.len()
            invariant
                self.buffer@.len() == old(self).buffer@.len(),
                self.buffer@.len() > 0,
                match self.last {
                    Some(last) => last < self.buffer@.len(),
                    None => true,
                },
            decreases bytes@.len() - i,
        {
            let b = bytes[i];
            self.entry(b);
            i = i + 1;
        }
    }
}

} // verus!

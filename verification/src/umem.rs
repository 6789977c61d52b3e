//! Task memory: address slices, region checks, and the RAM the kernel
//! borrows during IPC transfers.
//!
//! Tasks name their buffers by base address and length. The kernel never
//! trusts such a slice: every access is first checked against the owning
//! task's region table, byte for byte inside a single region carrying the
//! needed attribute. The physical RAM window itself is held as a byte
//! vector so that message copies are stated exactly, over sequences.

use vstd::prelude::*;
use crate::abi::RegionDesc;

verus! {

/// An untrusted slice of task memory: a base address and a length in bytes,
/// exactly as a task passed them in registers.
#[derive(Copy, Clone, Debug, PartialEq, Eq, Structural)]
pub struct USlice {
    /// First address of the slice.
    pub base: u32,
    /// Length of the slice in bytes.
    pub len: u32,
}

impl USlice {
    /// A slice is proper when it does not wrap the 32-bit address space.
    pub open spec fn wf(self) -> bool {
        self.base + self.len <= 0x1_0000_0000
    }

    /// Whether the slice is empty.
    pub open spec fn spec_is_empty(self) -> bool {
        self.len == 0
    }

    /// Builds a slice from a base address and length.
    pub fn from_raw(base: u32, len: u32) -> (s: USlice)
        ensures
            s.base == base,
            s.len == len,
    {
        USlice { base, len }
    }

    /// Whether the slice covers no bytes.
    pub fn is_empty(&self) -> (r: bool)
        ensures
            r == self.spec_is_empty(),
    {
        self.len == 0
    }
}

/// Whether region `r` grants `atts` over all of slice `s`.
pub open spec fn region_covers(r: RegionDesc, s: USlice, atts: u32) -> bool {
    &&& r.attributes & atts == atts
    &&& r.base <= s.base
    &&& s.base + s.len <= r.base + r.size
}

/// Whether the region table `regions` grants `atts` over all of `s`: every
/// byte must lie inside a single region carrying the attribute. The empty
/// slice is always accessible.
pub open spec fn spec_can_access(regions: Seq<RegionDesc>, s: USlice, atts: u32) -> bool {
    ||| s.len == 0
    ||| exists|i: int| 0 <= i < regions.len() && region_covers(regions[i], s, atts)
}

/// Checks a slice against a region table for the attribute bits `atts`.
pub fn can_access(regions: &Vec<RegionDesc>, s: USlice, atts: u32) -> (ok: bool)
    ensures
        ok == spec_can_access(regions@, s, atts),
{
    if s.len == 0 {
        return true;
    }
    let end: u64 = s.base as u64 + s.len as u64;
    let mut i: usize = 0;
    while i < regions.len()
        invariant
            i <= regions@.len(),
            end == s.base + s.len,
            s.len != 0,
            forall|j: int| 0 <= j < i ==> !region_covers(regions@[j], s, atts),
        decreases regions@.len() - i,
    {
        let r = regions[i];
        if r.attributes & atts == atts
            && r.base <= s.base
            && end <= r.base as u64 + r.size as u64
        {
            return true;
        }
        i = i + 1;
    }
    false
}

/// The bytes the paint pattern places at each address: the word
/// `0xbaddcafe`, little endian, repeated from every word-aligned address.
pub open spec fn paint_byte(addr: int) -> u8 {
    if addr % 4 == 0 {
        0xfe
    } else if addr % 4 == 1 {
        0xca
    } else if addr % 4 == 2 {
        0xdd
    } else {
        0xba
    }
}

/// The RAM window that backs task memory: a base address and the bytes
/// stored from it.
pub struct UserRam {
    /// Physical address of the first byte of the window.
    pub base: u32,
    /// The stored bytes; address `base + i` maps to index `i`.
    pub bytes: Vec<u8>,
}

impl UserRam {
    /// The window must not wrap the 32-bit address space.
    pub open spec fn wf(self) -> bool {
        self.base + self.bytes@.len() <= 0x1_0000_0000
    }

    /// The stored bytes, as a sequence.
    pub open spec fn mem(self) -> Seq<u8> {
        self.bytes@
    }

    /// The window offset of address `addr`.
    pub open spec fn off(self, addr: int) -> int {
        addr - self.base
    }

    /// Whether `[addr, addr + len)` lies inside the window.
    pub open spec fn spec_contains(self, addr: int, len: int) -> bool {
        self.base <= addr && addr + len <= self.base + self.bytes@.len()
    }

    /// Builds a window of `len` zero bytes starting at `base`.
    pub fn new(base: u32, len: u32) -> (r: UserRam)
        requires
            base + len <= 0x1_0000_0000,
        ensures
            r.base == base,
            r.mem().len() == len,
            r.wf(),
            forall|i: int| 0 <= i < len ==> r.mem()[i] == 0,
    {
        let mut bytes: Vec<u8> = Vec::new();
        let mut i: u32 = 0;
        while i < len
            invariant
                i <= len,
                bytes@.len() == i,
                forall|j: int| 0 <= j < i ==> bytes@[j] == 0,
            decreases len - i,
        {
            bytes.push(0);
            i = i + 1;
        }
        UserRam { base, bytes }
    }

    /// Checks that `[addr, addr + len)` lies inside the window.
    pub fn contains(&self, addr: u32, len: u32) -> (r: bool)
        requires
            self.wf(),
        ensures
            r == self.spec_contains(addr as int, len as int),
    {
        self.base <= addr
            && addr as u64 + len as u64 <= self.base as u64 + self.bytes.len() as u64
    }

    /// Reads one byte at address `addr`.
    pub fn read_byte(&self, addr: u32) -> (b: u8)
        requires
            self.wf(),
            self.spec_contains(addr as int, 1),
        ensures
            b == self.mem()[self.off(addr as int)],
    {
        self.bytes[(addr - self.base) as usize]
    }

    /// Writes one byte at address `addr`.
    pub fn write_byte(&mut self, addr: u32, b: u8)
        requires
            old(self).wf(),
            old(self).spec_contains(addr as int, 1),
        ensures
            final(self).base == old(self).base,
            final(self).mem() == old(self).mem().update(old(self).off(addr as int), b),
    {
        let idx: usize = (addr - self.base) as usize;
        self.bytes.set(idx, b);
    }

    /// Reads `len` bytes starting at address `addr`.
    pub fn read_bytes(&self, addr: u32, len: u32) -> (r: Vec<u8>)
        requires
            self.wf(),
            self.spec_contains(addr as int, len as int),
        ensures
            r@ == self.mem().subrange(self.off(addr as int), self.off(addr as int) + len),
    {
        let mut r: Vec<u8> = Vec::new();
        let mut i: u32 = 0;
        while i < len
            invariant
                i <= len,
                self.wf(),
                self.spec_contains(addr as int, len as int),
                r@.len() == i,
                forall|j: int| 0 <= j < i ==> r@[j] == self.mem()[self.off(addr as int) + j],
            decreases len - i,
        {
            r.push(self.bytes[(addr - self.base + i) as usize]);
            i = i + 1;
        }
        proof {
            assert(r@ =~= self.mem().subrange(
                self.off(addr as int),
                self.off(addr as int) + len,
            ));
        }
        r
    }

    /// Writes the bytes of `data` starting at address `addr`.
    pub fn write_bytes(&mut self, addr: u32, data: &Vec<u8>)
        requires
            old(self).wf(),
            old(self).spec_contains(addr as int, data@.len() as int),
        ensures
            final(self).base == old(self).base,
            final(self).mem().len() == old(self).mem().len(),
            forall|j: int|
                0 <= j < data@.len()
                    ==> final(self).mem()[old(self).off(addr as int) + j] == data@[j],
            forall|j: int|
                0 <= j < old(self).mem().len()
                    && !(old(self).off(addr as int) <= j < old(self).off(addr as int)
                        + data@.len())
                    ==> final(self).mem()[j] == old(self).mem()[j],
    {
        let mut i: usize = 0;
        while i < data.len()
            invariant
                i <= data@.len(),
                old(self).wf(),
                old(self).spec_contains(addr as int, data@.len() as int),
                self.base == old(self).base,
                self.mem().len() == old(self).mem().len(),
                forall|j: int|
                    0 <= j < i
                        ==> self.mem()[old(self).off(addr as int) + j] == data@[j],
                forall|j: int|
                    0 <= j < old(self).mem().len()
                        && !(old(self).off(addr as int) <= j < old(self).off(addr as int)
                            + data@.len())
                        ==> self.mem()[j] == old(self).mem()[j],
            decreases data@.len() - i,
        {
            let idx: usize = (addr - self.base) as usize + i;
            self.bytes.set(idx, data[i]);
            i = i + 1;
        }
    }

    /// Paints `[lo, hi)` with the stack sentinel pattern.
    pub fn paint(&mut self, lo: u32, hi: u32)
        requires
            old(self).wf(),
            lo <= hi,
            old(self).spec_contains(lo as int, hi - lo),
        ensures
            final(self).base == old(self).base,
            final(self).mem().len() == old(self).mem().len(),
            forall|a: int|
                lo <= a < hi ==> final(self).mem()[old(self).off(a)] == paint_byte(a),
            forall|j: int|
                0 <= j < old(self).mem().len()
                    && !(old(self).off(lo as int) <= j < old(self).off(hi as int))
                    ==> final(self).mem()[j] == old(self).mem()[j],
    {
        let mut a: u32 = lo;
        while a < hi
            invariant
                lo <= a <= hi,
                old(self).wf(),
                old(self).spec_contains(lo as int, hi - lo),
                self.base == old(self).base,
                self.mem().len() == old(self).mem().len(),
                forall|x: int| lo <= x < a ==> self.mem()[old(self).off(x)] == paint_byte(x),
                forall|j: int|
                    0 <= j < old(self).mem().len()
                        && !(old(self).off(lo as int) <= j < old(self).off(hi as int))
                        ==> self.mem()[j] == old(self).mem()[j],
            decreases hi - a,
        {
            let b: u8 = if a % 4 == 0 {
                0xfe
            } else if a % 4 == 1 {
                0xca
            } else if a % 4 == 2 {
                0xdd
            } else {
                0xba
            };
            let idx: usize = (a - self.base) as usize;
            self.bytes.set(idx, b);
            a = a + 1;
        }
    }

    /// Reads a little-endian 32-bit word at address `addr`.
    pub fn read_u32(&self, addr: u32) -> (w: u32)
        requires
            self.wf(),
            self.spec_contains(addr as int, 4),
        ensures
            w == spec_u32_le(self.mem(), self.off(addr as int)),
    {
        let b0 = self.read_byte(addr) as u32;
        let b1 = self.read_byte(addr + 1) as u32;
        let b2 = self.read_byte(addr + 2) as u32;
        let b3 = self.read_byte(addr + 3) as u32;
        b0 | (b1 << 8) | (b2 << 16) | (b3 << 24)
    }
}

/// The little-endian 32-bit word stored at offset `off` of `mem`.
pub open spec fn spec_u32_le(mem: Seq<u8>, off: int) -> u32 {
    (mem[off] as u32) | ((mem[off + 1] as u32) << 8) | ((mem[off + 2] as u32) << 16)
        | ((mem[off + 3] as u32) << 24)
}

} // verus!

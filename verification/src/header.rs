//! The image header spliced into the kernel binary for
//! secure-boot-capable targets: a magic word, the total image length, and
//! the security attribution entries that carve the address space into
//! non-secure and non-secure-callable windows.
//!
//! The packing tool patches this record into the reserved header section
//! after linking; the layout here is the wire contract both sides keep.

use vstd::prelude::*;

verus! {

/// The magic word marking a populated image header.
pub const HEADER_MAGIC: u32 = 0x1535_6637;

/// Number of security attribution entries the header carries.
pub const SAU_ENTRIES: usize = 5;

/// Size of the packed header in bytes: the magic word, the image length,
/// and five base/limit pairs.
pub const HEADER_SIZE: usize = 48;

/// One security attribution entry: a region base and a region limit. Bit
/// zero of the limit marks the entry valid; bit one marks the region
/// non-secure callable; the limit address itself is 32-byte aligned.
#[derive(Copy, Clone, Debug, PartialEq, Eq, Structural)]
pub struct SauEntry {
    /// Region base address.
    pub rbar: u32,
    /// Region limit address, with the valid and callable flags in its low
    /// bits.
    pub rlar: u32,
}

/// The entry that opens `[start, end)` as non-secure: the limit is the
/// last address, aligned down to 32 bytes, with the valid bit set.
pub open spec fn spec_ns_entry(start: u32, end: u32) -> SauEntry {
    SauEntry { rbar: start, rlar: (((end - 1) as u32) & !0x1f) | 1 }
}

/// The entry that opens `[start, end)` as non-secure callable: as the
/// non-secure entry, with the callable bit also set.
pub open spec fn spec_nsc_entry(start: u32, end: u32) -> SauEntry {
    SauEntry { rbar: start, rlar: (((end - 1) as u32) & !0x1f) | 3 }
}

/// The fixed entry that opens the peripheral window to non-secure code.
pub open spec fn spec_peripheral_entry() -> SauEntry {
    SauEntry { rbar: 0x4000_0000, rlar: 0x4fff_ffe0u32 | 1 }
}

/// The attribution entries for the memory map `map`, each range given as
/// `(start, end)`. Without a secure task every range becomes one
/// non-secure entry. With one, the range holding the secure task's start
/// splits into three: the non-secure stretch before it, the non-secure
/// stretch after it, and the callable window inside it.
pub open spec fn spec_sau_seq(
    map: Seq<(u32, u32)>,
    secure: Option<((u32, u32), (u32, u32))>,
) -> Seq<SauEntry>
    decreases map.len(),
{
    if map.len() == 0 {
        Seq::empty()
    } else {
        let (start, end) = map[0];
        let head = match secure {
            Some(((sec_start, sec_end), (nsc_start, nsc_end))) => if start <= sec_start
                < end {
                seq![
                    SauEntry {
                        rbar: start,
                        rlar: (((sec_start - 1) as u32) & !0x1f) | 1,
                    },
                    spec_ns_entry(sec_end, end),
                    spec_nsc_entry(nsc_start, nsc_end),
                ]
            } else {
                seq![spec_ns_entry(start, end)]
            },
            None => seq![spec_ns_entry(start, end)],
        };
        head + spec_sau_seq(map.skip(1), secure)
    }
}

/// Builds the attribution entries for a memory map, closing with the
/// fixed peripheral entry. `secure`, when present, carries the secure
/// task's range and its callable window.
pub fn sau_entries(
    map: &Vec<(u32, u32)>,
    secure: Option<((u32, u32), (u32, u32))>,
) -> (entries: Vec<SauEntry>)
    requires
        forall|i: int| 0 <= i < map@.len() ==> (#[trigger] map@[i]).1 >= 1,
        match secure {
            Some(((sec_start, _), (_, nsc_end))) => sec_start >= 1 && nsc_end >= 1,
            None => true,
        },
    ensures
        entries@ == spec_sau_seq(map@, secure).push(spec_peripheral_entry()),
{
    let mut entries: Vec<SauEntry> = Vec::new();
    let mut i: usize = 0;
    while i < map.len()
        invariant
            i <= map@.len(),
            forall|x: int| 0 <= x < map@.len() ==> (#[trigger] map@[x]).1 >= 1,
            match secure {
                Some(((sec_start, _), (_, nsc_end))) => sec_start >= 1 && nsc_end >= 1,
                None => true,
            },
            entries@ == spec_sau_seq(map@.take(i as int), secure),
        decreases map@.len() - i,
    {
        let (start, end) = map[i];
        let split = match secure {
            Some(((sec_start, _), _)) => start <= sec_start && sec_start < end,
            None => false,
        };
        if split {
            let ((sec_start, sec_end), (nsc_start, nsc_end)) = match secure {
                Some(s) => s,
                None => ((0, 0), (0, 0)),
            };
            entries.push(SauEntry {
                rbar: start,
                rlar: ((sec_start - 1) & !0x1f) | 1,
            });
            entries.push(SauEntry {
                rbar: sec_end,
                rlar: ((end - 1) & !0x1f) | 1,
            });
            entries.push(SauEntry {
                rbar: nsc_start,
                rlar: ((nsc_end - 1) & !0x1f) | 3,
            });
        } else {
            entries.push(SauEntry {
                rbar: start,
                rlar: ((end - 1) & !0x1f) | 1,
            });
        }
        proof {
            lemma_sau_seq_step(map@, secure, i as int);
            assert(seq![map@[i as int]].skip(1) =~= Seq::<(u32, u32)>::empty());
            assert(spec_sau_seq(Seq::<(u32, u32)>::empty(), secure) =~= Seq::<
                SauEntry,
            >::empty());
            assert(entries@ =~= spec_sau_seq(map@.take(i as int + 1), secure));
        }
        i = i + 1;
    }
    proof {
        assert(map@.take(map@.len() as int) =~= map@);
    }
    entries.push(SauEntry { rbar: 0x4000_0000, rlar: 0x4fff_ffe0 | 1 });
    entries
}

/// Appending one range to the map appends exactly that range's entries.
proof fn lemma_sau_seq_step(
    map: Seq<(u32, u32)>,
    secure: Option<((u32, u32), (u32, u32))>,
    i: int,
)
    requires
        0 <= i < map.len(),
    ensures
        spec_sau_seq(map.take(i + 1), secure) == spec_sau_seq(map.take(i), secure)
            + spec_sau_seq(seq![map[i]], secure),
    decreases i,
{
    if i == 0 {
        assert(map.take(1) =~= seq![map[0]]);
        assert(map.take(0) =~= Seq::<(u32, u32)>::empty());
        assert(spec_sau_seq(map.take(1), secure) =~= spec_sau_seq(Seq::empty(), secure)
            + spec_sau_seq(seq![map[0]], secure));
    } else {
        lemma_sau_seq_step(map.skip(1), secure, i - 1);
        assert(map.take(i + 1).skip(1) =~= map.skip(1).take(i));
        assert(map.take(i).skip(1) =~= map.skip(1).take(i - 1));
        assert(map.take(i + 1)[0] == map[0]);
        assert(map.take(i)[0] == map[0]);
        assert(map.skip(1)[i - 1] == map[i]);
        assert(spec_sau_seq(map.take(i + 1), secure) =~= spec_sau_seq(map.take(i), secure)
            + spec_sau_seq(seq![map[i]], secure));
    }
}

/// The highest end address among the flash sections: sections are `(start,
/// len)` pairs, and only those starting strictly inside `(flash_start,
/// flash_end)` count.
pub open spec fn spec_image_end(
    sections: Seq<(u32, u32)>,
    flash_start: u32,
    flash_end: u32,
) -> int
    decreases sections.len(),
{
    if sections.len() == 0 {
        0
    } else {
        let rest = spec_image_end(sections.skip(1), flash_start, flash_end);
        let (addr, len) = sections[0];
        if flash_start < addr < flash_end && addr > rest {
            addr + len
        } else {
            rest
        }
    }
}

/// Computes the total image length: the highest end address of any
/// section inside the flash window, measured from the flash start.
pub fn compute_image_len(
    sections: &Vec<(u32, u32)>,
    flash_start: u32,
    flash_end: u32,
) -> (len: u64)
    ensures
        len == if spec_image_end(sections@, flash_start, flash_end) >= flash_start {
            spec_image_end(sections@, flash_start, flash_end) - flash_start
        } else {
            0
        },
{
    let mut end: u64 = 0;
    let mut i: usize = sections.len();
    proof {
        assert(sections@.skip(sections@.len() as int) =~= Seq::<(u32, u32)>::empty());
    }
    while i > 0
        invariant
            i <= sections@.len(),
            end == spec_image_end(sections@.skip(i as int), flash_start, flash_end),
        decreases i,
    {
        i = i - 1;
        let (addr, len) = sections[i];
        if flash_start < addr && addr < flash_end && (addr as u64) > end {
            end = addr as u64 + len as u64;
        }
        proof {
            assert(sections@.skip(i as int)[0] == sections@[i as int]);
            assert(sections@.skip(i as int).skip(1) =~= sections@.skip(i as int + 1));
        }
    }
    proof {
        assert(sections@.skip(0) =~= sections@);
    }
    if end >= flash_start as u64 {
        end - flash_start as u64
    } else {
        0
    }
}

/// Packs a header into its 48 wire bytes: the magic word, then the image
/// length, then the five entries, every word little endian.
pub fn header_bytes(total_image_len: u32, entries: &Vec<SauEntry>) -> (bytes: Vec<u8>)
    requires
        entries@.len() == SAU_ENTRIES,
    ensures
        bytes@.len() == HEADER_SIZE,
        crate::umem::spec_u32_le(bytes@, 0) == HEADER_MAGIC,
        crate::umem::spec_u32_le(bytes@, 4) == total_image_len,
        forall|i: int|
            0 <= i < SAU_ENTRIES ==> crate::umem::spec_u32_le(bytes@, 8 + 8 * i)
                == (#[trigger] entries@[i]).rbar && crate::umem::spec_u32_le(
                bytes@,
                12 + 8 * i,
            ) == entries@[i].rlar,
{
    let mut bytes: Vec<u8> = Vec::new();
    push_u32_le(&mut bytes, HEADER_MAGIC);
    push_u32_le(&mut bytes, total_image_len);
    let mut i: usize = 0;
    while i < SAU_ENTRIES
        invariant
            i <= 5,
            entries@.len() == 5,
            bytes@.len() == 8 + 8 * i,
            crate::umem::spec_u32_le(bytes@, 0) == HEADER_MAGIC,
            crate::umem::spec_u32_le(bytes@, 4) == total_image_len,
            forall|x: int|
                0 <= x < i ==> crate::umem::spec_u32_le(bytes@, 8 + 8 * x)
                    == (#[trigger] entries@[x]).rbar && crate::umem::spec_u32_le(
                    bytes@,
                    12 + 8 * x,
                ) == entries@[x].rlar,
        decreases 5 - i,
    {
        push_u32_le(&mut bytes, entries[i].rbar);
        push_u32_le(&mut bytes, entries[i].rlar);
        i = i + 1;
    }
    bytes
}

/// Appends one word, little endian.
fn push_u32_le(bytes: &mut Vec<u8>, w: u32)
    ensures
        final(bytes)@.len() == old(bytes)@.len() + 4,
        forall|i: int|
            0 <= i < old(bytes)@.len() ==> final(bytes)@[i] == old(bytes)@[i],
        crate::umem::spec_u32_le(final(bytes)@, old(bytes)@.len() as int) == w,
{
    let b0 = #[verifier::truncate] (w as u8);
    let b1 = #[verifier::truncate] ((w >> 8) as u8);
    let b2 = #[verifier::truncate] ((w >> 16) as u8);
    let b3 = #[verifier::truncate] ((w >> 24) as u8);
    bytes.push(b0);
    bytes.push(b1);
    bytes.push(b2);
    bytes.push(b3);
    proof {
        let v = w;
        assert((v as u8) as u32 | (((v >> 8) as u8) as u32) << 8 | (((v >> 16) as u8) as u32)
            << 16 | (((v >> 24) as u8) as u32) << 24 == v) by (bit_vector);
    }
}

} // verus!

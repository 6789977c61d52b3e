//! Architecture support: the machine state the kernel programs (tick
//! clock, timer compare, interrupt enables, privilege drop), translation of
//! region tables into memory-protection entries, and task reinitialization.
//!
//! On hardware these operations end in CSR and MMIO writes from the trap
//! path; here the registers are plain fields, so every computation that
//! feeds them is stated and proved, and a thin platform shell performs the
//! final stores.

use vstd::prelude::*;
use crate::abi::{RegionDesc, REGIONS_PER_TASK, REGION_WRITE};
use crate::saved_state::SavedState;
use crate::task::Task;
use crate::umem::{paint_byte, UserRam};

verus! {

/// Bit of the machine interrupt-enable register that gates the machine
/// timer interrupt.
pub const MIE_MTIMER: u32 = 0x80;

/// The machine state the kernel owns: tick bookkeeping, the timer compare
/// register, interrupt enables, and the exit path back to user mode.
#[derive(Copy, Clone, Debug, PartialEq, Eq)]
pub struct Machine {
    /// Timer increment per kernel tick, in timer counts.
    pub clock_freq_khz: u32,
    /// The free-running machine timer counter.
    pub mtime: u64,
    /// The timer compare register; an interrupt fires when the counter
    /// passes it.
    pub mtimecmp: u64,
    /// The machine interrupt-enable bits.
    pub mie: u32,
    /// Whether the next return from machine mode drops to user mode.
    pub mpp_user: bool,
    /// The program counter the next machine-mode return resumes at.
    pub mepc: u32,
    /// Monotonic count of kernel ticks since boot.
    pub ticks: u64,
}

impl Machine {
    /// Builds the machine state at reset: everything clear.
    pub fn at_reset() -> (m: Machine)
        ensures
            m == (Machine {
                clock_freq_khz: 0,
                mtime: 0,
                mtimecmp: 0,
                mie: 0,
                mpp_user: false,
                mepc: 0,
                ticks: 0,
            }),
    {
        Machine {
            clock_freq_khz: 0,
            mtime: 0,
            mtimecmp: 0,
            mie: 0,
            mpp_user: false,
            mepc: 0,
            ticks: 0,
        }
    }
}

/// Records the tick divisor so the timer reload and debuggers can find it.
pub fn set_clock_freq(m: &mut Machine, tick_divisor: u32)
    ensures
        *final(m) == (Machine { clock_freq_khz: tick_divisor, ..*old(m) }),
{
    m.clock_freq_khz = tick_divisor;
}

/// Reads the kernel tick counter.
pub fn now(m: &Machine) -> (t: u64)
    ensures
        t == m.ticks,
{
    m.ticks
}

/// Advances the kernel tick counter by one. The counter must not wrap: an
/// overflow after 2^64 ticks would indicate memory corruption, so the
/// input is excluded rather than wrapped.
pub fn incr_ticks(m: &mut Machine)
    requires
        old(m).ticks < u64::MAX,
    ensures
        *final(m) == (Machine { ticks: (old(m).ticks + 1) as u64, ..*old(m) }),
{
    m.ticks = m.ticks + 1;
}

/// Moves the timer compare register one tick interval forward, which also
/// acknowledges the pending timer interrupt.
pub fn reset_timer(m: &mut Machine)
    requires
        old(m).mtimecmp + old(m).clock_freq_khz <= u64::MAX,
    ensures
        *final(m) == (Machine {
            mtimecmp: (old(m).mtimecmp + old(m).clock_freq_khz) as u64,
            ..*old(m)
        }),
{
    m.mtimecmp = m.mtimecmp + m.clock_freq_khz as u64;
}

/// Clears bit `n` of the machine interrupt-enable register.
pub fn disable_irq(m: &mut Machine, n: u32)
    requires
        n < 32,
    ensures
        *final(m) == (Machine { mie: old(m).mie & !(1u32 << n), ..*old(m) }),
{
    let cur_mie = m.mie;
    let new_mie = cur_mie & !(0x1u32 << n);
    m.mie = new_mie;
}

/// Sets bit `n` of the machine interrupt-enable register.
pub fn enable_irq(m: &mut Machine, n: u32)
    requires
        n < 32,
    ensures
        *final(m) == (Machine { mie: old(m).mie | (1u32 << n), ..*old(m) }),
{
    let cur_mie = m.mie;
    let new_mie = cur_mie | (0x1u32 << n);
    m.mie = new_mie;
}

/// Prepares the machine to launch the first task: the timer is primed one
/// interval past the current counter, the timer interrupt is enabled, and
/// the return path is aimed at the task's entry point in user mode.
pub fn start_first_task(m: &mut Machine, tick_divisor: u32, task: &Task)
    requires
        old(m).mtime + tick_divisor <= u64::MAX,
    ensures
        *final(m) == (Machine {
            clock_freq_khz: tick_divisor,
            mtimecmp: (old(m).mtime + tick_divisor) as u64,
            mie: old(m).mie | MIE_MTIMER,
            mpp_user: true,
            mepc: task.save.pc,
            ..*old(m)
        }),
{
    m.clock_freq_khz = tick_divisor;
    m.mtimecmp = m.mtime;
    reset_timer(m);
    m.mie = m.mie | MIE_MTIMER;
    m.mpp_user = true;
    m.mepc = task.save.pc;
}

/// The access rights a memory-protection entry can grant.
#[derive(Copy, Clone, Debug, PartialEq, Eq, Structural)]
pub enum PmpPermission {
    /// No access.
    NoAccess,
    /// Read only.
    R,
    /// Read and write.
    RW,
    /// Execute only.
    X,
    /// Read and execute.
    RX,
    /// Read, write, and execute.
    RWX,
}

/// One memory-protection entry write: a configuration slot, whether it
/// closes a top-of-range pair, the rights granted, and the address bound.
#[derive(Copy, Clone, Debug, PartialEq, Eq, Structural)]
pub struct PmpEntry {
    /// Index of the entry written.
    pub index: usize,
    /// Whether the entry is active in top-of-range mode; inactive entries
    /// only carry an address bound.
    pub tor: bool,
    /// The rights granted up to this entry's address.
    pub permission: PmpPermission,
    /// The address bound programmed into the entry.
    pub address: u64,
}

/// Whether the low three attribute bits translate to a permission: a
/// region granting write without read has no encoding and is rejected at
/// boot.
pub open spec fn pmp_encodable(attributes: u32) -> bool {
    attributes & 0b111 != 0b010 && attributes & 0b111 != 0b110
}

/// The permission encoding of the low three attribute bits.
pub open spec fn spec_pmp_permission(attributes: u32) -> PmpPermission {
    if attributes & 0b111 == 0b000 {
        PmpPermission::NoAccess
    } else if attributes & 0b111 == 0b001 {
        PmpPermission::R
    } else if attributes & 0b111 == 0b011 {
        PmpPermission::RW
    } else if attributes & 0b111 == 0b100 {
        PmpPermission::X
    } else if attributes & 0b111 == 0b101 {
        PmpPermission::RX
    } else {
        PmpPermission::RWX
    }
}

/// The pair of entries that protect region `r` in slot `i`: a disabled
/// base entry carrying the region's start, then a top-of-range entry
/// carrying its end and rights. The canonical null region maps to a
/// disabled pair.
pub open spec fn spec_pmp_pair(i: int, r: RegionDesc) -> (PmpEntry, PmpEntry) {
    let low = PmpEntry {
        index: (2 * i) as usize,
        tor: false,
        permission: PmpPermission::NoAccess,
        address: r.base as u64,
    };
    let high = if r.is_null_region() {
        PmpEntry {
            index: (2 * i + 1) as usize,
            tor: false,
            permission: PmpPermission::NoAccess,
            address: (r.base + r.size) as u64,
        }
    } else {
        PmpEntry {
            index: (2 * i + 1) as usize,
            tor: true,
            permission: spec_pmp_permission(r.attributes),
            address: (r.base + r.size) as u64,
        }
    };
    (low, high)
}

/// Translates a task's region table into the memory-protection entries to
/// program before running it. All eight slots are written on every
/// dispatch — unused ones as disabled null-region pairs — so no rights
/// leak from the previous task.
pub fn apply_memory_protection(task: &Task) -> (entries: Vec<PmpEntry>)
    requires
        task.region_table@.len() <= REGIONS_PER_TASK,
        forall|j: int|
            0 <= j < task.region_table@.len()
                ==> (#[trigger] task.region_table@[j]).wf()
                    && pmp_encodable(task.region_table@[j].attributes),
    ensures
        entries@.len() == 2 * REGIONS_PER_TASK,
        forall|j: int|
            0 <= j < task.region_table@.len()
                ==> entries@[2 * j] == spec_pmp_pair(j, #[trigger] task.region_table@[j]).0
                    && entries@[2 * j + 1] == spec_pmp_pair(j, task.region_table@[j]).1,
        forall|j: int|
            task.region_table@.len() <= j < REGIONS_PER_TASK
                ==> #[trigger] entries@[2 * j] == spec_pmp_pair(
                    j,
                    crate::abi::spec_null_region(),
                ).0 && entries@[2 * j + 1] == spec_pmp_pair(
                    j,
                    crate::abi::spec_null_region(),
                ).1,
{
    let mut entries: Vec<PmpEntry> = Vec::new();
    let mut i: usize = 0;
    while i < task.region_table.len()
        invariant
            i <= task.region_table@.len(),
            task.region_table@.len() <= REGIONS_PER_TASK,
            entries@.len() == 2 * i,
            forall|j: int|
                0 <= j < task.region_table@.len()
                    ==> (#[trigger] task.region_table@[j]).wf()
                        && pmp_encodable(task.region_table@[j].attributes),
            forall|j: int|
                0 <= j < i
                    ==> entries@[2 * j] == spec_pmp_pair(j, #[trigger] task.region_table@[j]).0
                        && entries@[2 * j + 1] == spec_pmp_pair(j, task.region_table@[j]).1,
        decreases task.region_table@.len() - i,
    {
        let region = task.region_table[i];
        let is_null = region.base == 0x0 && region.size == 0x20;
        let end: u64 = region.base as u64 + region.size as u64;
        entries.push(PmpEntry {
            index: 2 * i,
            tor: false,
            permission: PmpPermission::NoAccess,
            address: region.base as u64,
        });
        if is_null {
            entries.push(PmpEntry {
                index: 2 * i + 1,
                tor: false,
                permission: PmpPermission::NoAccess,
                address: end,
            });
        } else {
            let bits = region.attributes & 0b111;
            let perm = if bits == 0b000 {
                PmpPermission::NoAccess
            } else if bits == 0b001 {
                PmpPermission::R
            } else if bits == 0b011 {
                PmpPermission::RW
            } else if bits == 0b100 {
                PmpPermission::X
            } else if bits == 0b101 {
                PmpPermission::RX
            } else {
                PmpPermission::RWX
            };
            entries.push(PmpEntry {
                index: 2 * i + 1,
                tor: true,
                permission: perm,
                address: end,
            });
        }
        i = i + 1;
    }
    while i < REGIONS_PER_TASK
        invariant
            task.region_table@.len() <= i <= REGIONS_PER_TASK,
            entries@.len() == 2 * i,
            forall|j: int|
                0 <= j < task.region_table@.len()
                    ==> entries@[2 * j] == spec_pmp_pair(j, #[trigger] task.region_table@[j]).0
                        && entries@[2 * j + 1] == spec_pmp_pair(j, task.region_table@[j]).1,
            forall|j: int|
                task.region_table@.len() <= j < i
                    ==> #[trigger] entries@[2 * j] == spec_pmp_pair(
                        j,
                        crate::abi::spec_null_region(),
                    ).0 && entries@[2 * j + 1] == spec_pmp_pair(
                        j,
                        crate::abi::spec_null_region(),
                    ).1,
        decreases REGIONS_PER_TASK - i,
    {
        entries.push(PmpEntry {
            index: 2 * i,
            tor: false,
            permission: PmpPermission::NoAccess,
            address: 0,
        });
        entries.push(PmpEntry {
            index: 2 * i + 1,
            tor: false,
            permission: PmpPermission::NoAccess,
            address: 0x20,
        });
        proof {
            assert(entries@[2 * (i as int)] == spec_pmp_pair(
                i as int,
                crate::abi::spec_null_region(),
            ).0);
            assert(entries@[2 * (i as int) + 1] == spec_pmp_pair(
                i as int,
                crate::abi::spec_null_region(),
            ).1);
        }
        i = i + 1;
    }
    entries
}

/// Whether region `r` holds the stack top `stack` and so gets painted from
/// its base up to the stack top.
pub open spec fn paints_region(r: RegionDesc, stack: u32) -> bool {
    r.base <= stack && stack <= r.base + r.size
}

/// Whether address `a` is painted by one of the first `k` regions of
/// `regions` when a task with initial stack `stack` is reinitialized.
pub open spec fn paint_covers_upto(regions: Seq<RegionDesc>, stack: u32, k: int, a: int) -> bool {
    exists|j: int|
        0 <= j < k && j < regions.len() && paints_region(#[trigger] regions[j], stack)
            && regions[j].base <= a < stack
}

/// Whether address `a` is painted when a task with region table `regions`
/// and initial stack `stack` is reinitialized.
pub open spec fn paint_covers(regions: Seq<RegionDesc>, stack: u32, a: int) -> bool {
    paint_covers_upto(regions, stack, regions.len() as int, a)
}

/// Extending the painted prefix by one region extends its coverage by
/// exactly that region's painted range.
proof fn lemma_paint_covers_step(regions: Seq<RegionDesc>, stack: u32, k: int, a: int)
    requires
        0 <= k < regions.len(),
    ensures
        paint_covers_upto(regions, stack, k + 1, a)
            <==> (paint_covers_upto(regions, stack, k, a)
                || (paints_region(regions[k], stack) && regions[k].base <= a < stack)),
{
    if paint_covers_upto(regions, stack, k + 1, a) {
        let j = choose|j: int|
            0 <= j < k + 1 && j < regions.len() && paints_region(#[trigger] regions[j], stack)
                && regions[j].base <= a < stack;
        if j < k {
            assert(paint_covers_upto(regions, stack, k, a));
        }
    }
    if paints_region(regions[k], stack) && regions[k].base <= a < stack {
        assert(paint_covers_upto(regions, stack, k + 1, a));
    }
    if paint_covers_upto(regions, stack, k, a) {
        let j = choose|j: int|
            0 <= j < k && j < regions.len() && paints_region(#[trigger] regions[j], stack)
                && regions[j].base <= a < stack;
        assert(paint_covers_upto(regions, stack, k + 1, a));
    }
}

/// Returns a task to its boot state: registers zeroed, the stack pointer
/// at the descriptor's 16-byte-aligned stack top, the program counter at
/// the entry point, and the stack painted with a distinct sentinel
/// pattern. The scheduling state, generation, timer, and notifications are
/// left for the caller, which differs between boot and restart.
pub fn reinitialize(task: &mut Task, ram: &mut UserRam)
    requires
        old(ram).wf(),
        old(task).descriptor.initial_stack % 16 == 0,
        forall|j: int|
            0 <= j < old(task).region_table@.len()
                && paints_region(#[trigger] old(task).region_table@[j],
                    old(task).descriptor.initial_stack)
                ==> old(task).region_table@[j].attributes & REGION_WRITE != 0
                    && old(ram).spec_contains(
                        old(task).region_table@[j].base as int,
                        old(task).descriptor.initial_stack
                            - old(task).region_table@[j].base,
                    ),
    ensures
        *final(task) == (Task {
            save: SavedState {
                sp: old(task).descriptor.initial_stack,
                pc: old(task).descriptor.entry_point,
                ..SavedState::spec_zeroed()
            },
            ..*old(task)
        }),
        final(task).save.sp % 16 == 0,
        final(ram).base == old(ram).base,
        final(ram).mem().len() == old(ram).mem().len(),
        forall|a: int|
            paint_covers(old(task).region_table@, old(task).descriptor.initial_stack, a)
                ==> final(ram).mem()[old(ram).off(a)] == paint_byte(a),
        forall|j: int|
            0 <= j < old(ram).mem().len()
                && !paint_covers(
                    old(task).region_table@,
                    old(task).descriptor.initial_stack,
                    j + old(ram).base,
                ) ==> final(ram).mem()[j] == old(ram).mem()[j],
{
    task.save = SavedState::zeroed();
    let initial_stack = task.descriptor.initial_stack;
    task.save.sp = initial_stack;

    let mut i: usize = 0;
    while i < task.region_table.len()
        invariant
            i <= task.region_table@.len(),
            task.region_table@ == old(task).region_table@,
            task.descriptor == old(task).descriptor,
            initial_stack == old(task).descriptor.initial_stack,
            ram.wf(),
            ram.base == old(ram).base,
            ram.mem().len() == old(ram).mem().len(),
            forall|j: int|
                0 <= j < old(task).region_table@.len()
                    && paints_region(#[trigger] old(task).region_table@[j], initial_stack)
                    ==> old(task).region_table@[j].attributes & REGION_WRITE != 0
                        && old(ram).spec_contains(
                            old(task).region_table@[j].base as int,
                            initial_stack - old(task).region_table@[j].base,
                        ),
            forall|a: int|
                paint_covers_upto(old(task).region_table@, initial_stack, i as int, a)
                    ==> ram.mem()[old(ram).off(a)] == paint_byte(a),
            forall|j: int|
                0 <= j < old(ram).mem().len()
                    && !paint_covers_upto(
                        old(task).region_table@,
                        initial_stack,
                        i as int,
                        j + old(ram).base,
                    ) ==> ram.mem()[j] == old(ram).mem()[j],
        decreases task.region_table@.len() - i,
    {
        let region = task.region_table[i];
        if initial_stack >= region.base
            && initial_stack as u64 <= region.base as u64 + region.size as u64
        {
            ram.paint(region.base, initial_stack);
        }
        proof {
            assert forall|a: int|
                paint_covers_upto(old(task).region_table@, initial_stack, i + 1, a)
                    <==> (paint_covers_upto(old(task).region_table@, initial_stack, i as int, a)
                        || (paints_region(old(task).region_table@[i as int], initial_stack)
                            && old(task).region_table@[i as int].base <= a
                                < initial_stack)) by {
                lemma_paint_covers_step(old(task).region_table@, initial_stack, i as int, a);
            }
        }
        i = i + 1;
    }
    let entry_point = task.descriptor.entry_point;
    task.save.pc = entry_point;
}

/// A platform reset request: the value to store and where, aimed at the
/// memory-mapped test device that reboots the platform.
#[derive(Copy, Clone, Debug, PartialEq, Eq, Structural)]
pub struct ResetRequest {
    /// Address of the reset device register.
    pub address: u32,
    /// Value whose store requests a reboot.
    pub value: u32,
}

/// Builds the store that reboots the platform through the memory-mapped
/// test device.
pub fn reset() -> (r: ResetRequest)
    ensures
        r == (ResetRequest { address: 0x0010_0000, value: 0x0000_7777 }),
{
    ResetRequest { address: 0x0010_0000, value: 0x0000_7777 }
}

} // verus!

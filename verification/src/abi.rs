//! Wire-level types shared between the kernel and its tasks: task
//! identifiers, region and task descriptors, lease descriptors, fault
//! records, and the response-code sentinels of the syscall interface.

use vstd::prelude::*;

verus! {

/// Number of low bits of a `TaskId` that carry the task's table index.
pub const TASK_INDEX_BITS: u16 = 10;

/// Mask selecting the index bits of a `TaskId`.
pub const TASK_INDEX_MASK: u16 = 0x3ff;

/// Mask selecting the six generation bits once shifted down.
pub const GENERATION_MASK: u8 = 0x3f;

/// The reserved identifier tasks use to name the kernel itself, for example
/// as the sender of a notification message.
pub const KERNEL_TASK_ID: u16 = 0xffff;

/// Response-code sentinel marking a dead peer; the low bits carry the peer's
/// current generation so the caller can re-address it.
pub const FIRST_DEAD_CODE: u32 = 0xffff_ff00;

/// A task identifier as passed between tasks: the task's table index in the
/// low ten bits, its generation in the six bits above.
#[derive(Copy, Clone, Debug, PartialEq, Eq, Structural)]
pub struct TaskId(pub u16);

impl TaskId {
    /// The table index named by this identifier.
    pub open spec fn spec_index(self) -> u16 {
        self.0 & TASK_INDEX_MASK
    }

    /// The generation named by this identifier.
    pub open spec fn spec_generation(self) -> u8 {
        ((self.0 >> TASK_INDEX_BITS) as u8) & GENERATION_MASK
    }

    /// Extracts the table index from the identifier.
    pub fn index(self) -> (i: u16)
        ensures
            i == self.spec_index(),
            i <= TASK_INDEX_MASK,
    {
        proof {
            let v = self.0;
            assert(v & TASK_INDEX_MASK <= 0x3ff) by (bit_vector);
        }
        self.0 & TASK_INDEX_MASK
    }

    /// Extracts the generation from the identifier.
    pub fn generation(self) -> (g: u8)
        ensures
            g == self.spec_generation(),
            g <= GENERATION_MASK,
    {
        proof {
            let v = self.0;
            assert(((v >> TASK_INDEX_BITS) as u8) & GENERATION_MASK <= 0x3f)
                by (bit_vector);
        }
        ((self.0 >> TASK_INDEX_BITS) as u8) & GENERATION_MASK
    }

    /// Packs an index and a generation into an identifier.
    pub fn for_index_and_gen(index: u16, gen: u8) -> (tid: TaskId)
        requires
            index <= TASK_INDEX_MASK,
            gen <= GENERATION_MASK,
        ensures
            tid.spec_index() == index,
            tid.spec_generation() == gen,
    {
        let packed: u16 = (index & TASK_INDEX_MASK)
            | (((gen & GENERATION_MASK) as u16) << TASK_INDEX_BITS);
        proof {
            let i = index;
            let g = gen;
            assert({
                let p = (i & 0x3ff) | (((g & 0x3f) as u16) << 10);
                i <= 0x3ff && g <= 0x3f ==> (p & 0x3ff) == i
                    && (((p >> 10) as u8) & 0x3f) == g
            }) by (bit_vector);
        }
        TaskId(packed)
    }
}

/// Builds the dead-peer response code for a peer currently at `gen`.
pub fn dead_response_code(gen: u8) -> (rc: u32)
    requires
        gen <= GENERATION_MASK,
    ensures
        rc == FIRST_DEAD_CODE + gen,
        rc & FIRST_DEAD_CODE == FIRST_DEAD_CODE,
{
    proof {
        let g = gen;
        assert(g <= 0x3f ==> (0xffff_ff00u32 | (g as u32)) == 0xffff_ff00 + g
            && ((0xffff_ff00u32 | (g as u32)) & 0xffff_ff00) == 0xffff_ff00)
            by (bit_vector);
    }
    FIRST_DEAD_CODE | (gen as u32)
}

/// Region attribute bit: readable.
pub const REGION_READ: u32 = 1;

/// Region attribute bit: writable.
pub const REGION_WRITE: u32 = 2;

/// Region attribute bit: executable.
pub const REGION_EXECUTE: u32 = 4;

/// Region attribute bit: device memory.
pub const REGION_DEVICE: u32 = 8;

/// Region attribute bit: usable for DMA.
pub const REGION_DMA: u32 = 16;

/// A memory protection region: a base address, a size in bytes, and
/// attribute bits.
#[derive(Copy, Clone, Debug, PartialEq, Eq, Structural)]
pub struct RegionDesc {
    /// First address of the region.
    pub base: u32,
    /// Size of the region in bytes.
    pub size: u32,
    /// Attribute bits (`REGION_READ` and friends).
    pub attributes: u32,
}

impl RegionDesc {
    /// A region is well formed when it is word aligned and does not wrap the
    /// 32-bit address space.
    pub open spec fn wf(self) -> bool {
        &&& self.base % 4 == 0
        &&& self.size % 4 == 0
        &&& self.base + self.size <= 0x1_0000_0000
    }

    /// The canonical filler region: 32 bytes at address zero with no rights.
    pub open spec fn is_null_region(self) -> bool {
        self.base == 0 && self.size == 0x20
    }
}

/// The canonical null region that fills unused region slots.
pub open spec fn spec_null_region() -> RegionDesc {
    RegionDesc { base: 0, size: 0x20, attributes: 0 }
}

/// Builds the canonical null region used to fill unused region slots.
pub fn null_region() -> (r: RegionDesc)
    ensures
        r == spec_null_region(),
        r.wf(),
        r.is_null_region(),
{
    RegionDesc { base: 0, size: 0x20, attributes: 0 }
}

/// Task flag bit: the task is started at boot rather than left stopped.
pub const START_AT_BOOT: u32 = 1;

/// Maximum number of region slots in a task's region table.
pub const REGIONS_PER_TASK: usize = 8;

/// A static task descriptor: where the task starts, where its stack begins,
/// its priority, and its flags.
#[derive(Copy, Clone, Debug, PartialEq, Eq, Structural)]
pub struct TaskDesc {
    /// Address of the task's first instruction.
    pub entry_point: u32,
    /// Initial stack top; must be 16-byte aligned.
    pub initial_stack: u32,
    /// Scheduling priority; zero is most urgent.
    pub priority: u8,
    /// Flag bits (`START_AT_BOOT`).
    pub flags: u32,
    /// The task's own index in the task table.
    pub index: u16,
}

/// Lease attribute bit: the callee may read the leased memory.
pub const LEASE_READ: u32 = 1;

/// Lease attribute bit: the callee may write the leased memory.
pub const LEASE_WRITE: u32 = 2;

/// A lease as it crosses the wire: a packed record of attributes, base
/// address, and length, twelve bytes long.
#[derive(Copy, Clone, Debug, PartialEq, Eq, Structural)]
pub struct ULease {
    /// Attribute bits (`LEASE_READ`, `LEASE_WRITE`).
    pub attributes: u32,
    /// First address of the leased memory.
    pub base_address: u32,
    /// Length of the leased memory in bytes.
    pub length: u32,
}

impl ULease {
    /// Builds a read-only lease over `[base, base + length)`.
    pub fn read_only(base: u32, length: u32) -> (l: ULease)
        ensures
            l == (ULease { attributes: LEASE_READ, base_address: base, length }),
    {
        ULease { attributes: LEASE_READ, base_address: base, length }
    }

    /// Builds a read-write lease over `[base, base + length)`.
    pub fn read_write(base: u32, length: u32) -> (l: ULease)
        ensures
            l == (ULease {
                attributes: LEASE_READ | LEASE_WRITE,
                base_address: base,
                length,
            }),
    {
        ULease { attributes: LEASE_READ | LEASE_WRITE, base_address: base, length }
    }

    /// Builds a write-only lease over `[base, base + length)`.
    pub fn write_only(base: u32, length: u32) -> (l: ULease)
        ensures
            l == (ULease { attributes: LEASE_WRITE, base_address: base, length }),
    {
        ULease { attributes: LEASE_WRITE, base_address: base, length }
    }
}

/// Who performed the access that faulted.
#[derive(Copy, Clone, Debug, PartialEq, Eq, Structural)]
pub enum FaultSource {
    /// The task itself.
    User,
    /// The kernel, acting on the task's behalf.
    Kernel,
}

/// Ways a task can misuse the syscall interface.
#[derive(Copy, Clone, Debug, PartialEq, Eq, Structural)]
pub enum UsageError {
    /// A syscall number outside the defined set.
    BadSyscallNumber,
    /// A task index beyond the task table.
    TaskOutOfRange,
    /// A task naming itself as an IPC peer.
    IllegalTask,
    /// An interrupt-control mask that maps to no interrupt of the caller.
    NoIrq,
}

/// Reasons a server can name when faulting a misbehaving client.
#[derive(Copy, Clone, Debug, PartialEq, Eq, Structural)]
pub enum ReplyFaultReason {
    /// The operation code was unknown to the server.
    UndefinedOperation,
    /// The message body was malformed.
    BadMessageSize,
    /// The message body failed validation.
    BadMessageContents,
    /// The client's reply buffer was too small.
    ReplyBufferTooSmall,
    /// The client is not permitted to use this operation.
    AccessViolation,
}

/// A task-level fault record.
#[derive(Copy, Clone, Debug, PartialEq, Eq)]
pub enum FaultInfo {
    /// The task executed an undefined instruction.
    IllegalInstruction,
    /// The task fetched an instruction from memory it cannot execute.
    IllegalText,
    /// The task touched memory it does not own. `address` is the offending
    /// address when the hardware captured one; `source` says who performed
    /// the access.
    MemoryAccess { address: Option<u32>, source: FaultSource },
    /// The task misused the syscall interface.
    SyscallUsage(UsageError),
    /// The task asked to be faulted.
    Panic,
    /// A server faulted the task through the reply-fault syscall.
    FromServer(TaskId, ReplyFaultReason),
}

/// A hardware interrupt number.
#[derive(Copy, Clone, Debug, PartialEq, Eq, Structural)]
pub struct InterruptNum(pub u32);

/// The task and notification bits that own one hardware interrupt.
#[derive(Copy, Clone, Debug, PartialEq, Eq, Structural)]
pub struct InterruptOwner {
    /// Index of the owning task.
    pub task: u32,
    /// Notification bits posted to the owner when the interrupt fires.
    pub notification: u32,
}

/// The syscall numbers of the kernel interface, as passed in register A7.
#[derive(Copy, Clone, Debug, PartialEq, Eq, Structural)]
pub enum Sysnum {
    /// Send a message to another task.
    Send,
    /// Receive a message or notification.
    Recv,
    /// Reply to a received message.
    Reply,
    /// Arm or disarm the caller's timer.
    SetTimer,
    /// Read from a lease granted by a blocked sender.
    BorrowRead,
    /// Write to a lease granted by a blocked sender.
    BorrowWrite,
    /// Inspect a lease granted by a blocked sender.
    BorrowInfo,
    /// Mask or unmask the interrupt lines behind notification bits.
    IrqControl,
    /// Fault the calling task with a message.
    Panic,
    /// Read the caller's timer state.
    GetTimer,
    /// Re-resolve a possibly stale task identifier.
    RefreshTaskId,
    /// Post notification bits to another task.
    Post,
    /// Fault a misbehaving client instead of replying.
    ReplyFault,
}

impl Sysnum {
    /// The wire encoding of this syscall number.
    pub open spec fn spec_code(self) -> u32 {
        match self {
            Sysnum::Send => 0,
            Sysnum::Recv => 1,
            Sysnum::Reply => 2,
            Sysnum::SetTimer => 3,
            Sysnum::BorrowRead => 4,
            Sysnum::BorrowWrite => 5,
            Sysnum::BorrowInfo => 6,
            Sysnum::IrqControl => 7,
            Sysnum::Panic => 8,
            Sysnum::GetTimer => 9,
            Sysnum::RefreshTaskId => 10,
            Sysnum::Post => 11,
            Sysnum::ReplyFault => 12,
        }
    }

    /// Decodes a wire syscall number; numbers outside the defined set give
    /// `None`.
    pub fn from_code(code: u32) -> (r: Option<Sysnum>)
        ensures
            match r {
                Some(s) => s.spec_code() == code,
                None => code > 12,
            },
    {
        match code {
            0 => Some(Sysnum::Send),
            1 => Some(Sysnum::Recv),
            2 => Some(Sysnum::Reply),
            3 => Some(Sysnum::SetTimer),
            4 => Some(Sysnum::BorrowRead),
            5 => Some(Sysnum::BorrowWrite),
            6 => Some(Sysnum::BorrowInfo),
            7 => Some(Sysnum::IrqControl),
            8 => Some(Sysnum::Panic),
            9 => Some(Sysnum::GetTimer),
            10 => Some(Sysnum::RefreshTaskId),
            11 => Some(Sysnum::Post),
            12 => Some(Sysnum::ReplyFault),
            _ => None,
        }
    }
}

} // verus!
